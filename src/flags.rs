use vstd::prelude::*;

use crate::event::{first_suffix, spec_classify, suffix_name_of, Event, EventView, FlagEvent};
use crate::frags::{frame_prints, read_prints, view_of, PrintView};
use crate::frame::{frame_fits, spec_frame_size, Info};
use crate::pings::frame_body;
use crate::qw::PrintId;
use crate::text::{latin1, to_unicode, trim_end, trimmed_end};
use crate::bytes::{find, occurs};

verus! {

/// The bytes `flag`: frames without them carry no flag message.
pub const FLAG_WORD: [u8; 4] = [0x66, 0x6C, 0x61, 0x67];

/// Flag events of one player in a capture-the-flag match.
#[derive(Clone, Copy, Debug, Default, PartialEq, Eq, Structural)]
pub struct PlayerFlagEvents {
    pub captures: u8,
    pub pickups: u8,
    pub returns: u8,
    pub carrier_frags: u8,
    pub defends: u8,
    pub carrier_defends: u8,
    pub carrier_defends_vs_aggressive: u8,
}

/// Endings of the second half of a flag message that the server sends in two
/// prints: returned, got and captured, for each team.
pub open spec fn spec_flag_message_endings() -> Seq<&'static str> {
    seq![
        " \u{f2}\u{e5}\u{f4}\u{f5}\u{f2}\u{ee}\u{e5}\u{e4} the \u{d2}\u{c5}\u{c4} flag!",
        " \u{f2}\u{e5}\u{f4}\u{f5}\u{f2}\u{ee}\u{e5}\u{e4} the \u{c2}\u{cc}\u{d5}\u{c5} flag!",
        " \u{e7}\u{ef}\u{f4} the \u{d2}\u{c5}\u{c4} flag!",
        " \u{e7}\u{ef}\u{f4} the \u{c2}\u{cc}\u{d5}\u{c5} flag!",
        " \u{e3}\u{e1}\u{f0}\u{f4}\u{f5}\u{f2}\u{e5}\u{e4} the \u{d2}\u{c5}\u{c4} flag!",
        " \u{e3}\u{e1}\u{f0}\u{f4}\u{f5}\u{f2}\u{e5}\u{e4} the \u{c2}\u{cc}\u{d5}\u{c5} flag!",
    ]
}

/// Endings of the second half of a flag message sent in two prints.
pub fn flag_message_endings() -> (r: Vec<&'static str>)
    ensures
        r@ == spec_flag_message_endings(),
{
    let mut r: Vec<&'static str> = Vec::new();
    r.push(" \u{f2}\u{e5}\u{f4}\u{f5}\u{f2}\u{ee}\u{e5}\u{e4} the \u{d2}\u{c5}\u{c4} flag!");
    r.push(" \u{f2}\u{e5}\u{f4}\u{f5}\u{f2}\u{ee}\u{e5}\u{e4} the \u{c2}\u{cc}\u{d5}\u{c5} flag!");
    r.push(" \u{e7}\u{ef}\u{f4} the \u{d2}\u{c5}\u{c4} flag!");
    r.push(" \u{e7}\u{ef}\u{f4} the \u{c2}\u{cc}\u{d5}\u{c5} flag!");
    r.push(" \u{e3}\u{e1}\u{f0}\u{f4}\u{f5}\u{f2}\u{e5}\u{e4} the \u{d2}\u{c5}\u{c4} flag!");
    r.push(" \u{e3}\u{e1}\u{f0}\u{f4}\u{f5}\u{f2}\u{e5}\u{e4} the \u{c2}\u{cc}\u{d5}\u{c5} flag!");
    assert(r@ =~= spec_flag_message_endings());
    r
}

/// The texts of the high-priority, non-empty records of `ps`.
pub open spec fn high_texts(ps: Seq<PrintView>) -> Seq<Seq<u8>>
    decreases ps.len(),
{
    if ps.len() == 0 {
        Seq::empty()
    } else if ps.last().0 == PrintId::High && ps.last().1.len() > 0 {
        high_texts(ps.drop_last()).push(ps.last().1)
    } else {
        high_texts(ps.drop_last())
    }
}

/// `t` is the second half of a flag message sent in two prints.
pub open spec fn is_flag_ending(t: Seq<u8>) -> bool {
    first_suffix(latin1(t), spec_flag_message_endings(), 0) is Some
}

/// One step of joining the halves of flag messages: a print starts a message,
/// and the next one ends it, appended where it is a flag ending.
pub open spec fn join_step(state: (Seq<Seq<u8>>, Seq<u8>), p: Seq<u8>) -> (Seq<Seq<u8>>, Seq<u8>) {
    if state.1.len() == 0 {
        (state.0, p)
    } else if is_flag_ending(p) {
        (state.0.push(state.1 + p), Seq::empty())
    } else {
        (state.0.push(state.1), Seq::empty())
    }
}

/// The joined messages, and the message left open, after the prints `ps`.
pub open spec fn join_texts(ps: Seq<Seq<u8>>) -> (Seq<Seq<u8>>, Seq<u8>)
    decreases ps.len(),
{
    if ps.len() == 0 {
        (Seq::empty(), Seq::empty())
    } else {
        join_step(join_texts(ps.drop_last()), ps.last())
    }
}

/// The flag messages of one frame body.
pub open spec fn frame_flag_messages(body: Seq<u8>) -> Seq<Seq<u8>> {
    let joined = join_texts(high_texts(frame_prints(body, 0)));
    if joined.1.len() > 0 {
        joined.0.push(joined.1)
    } else {
        joined.0
    }
}

/// The flag messages of the stream from the frame at `index` on.
pub open spec fn flag_messages(data: Seq<u8>, index: int) -> Seq<Seq<u8>>
    decreases data.len() - index,
{
    if frame_fits(data, index) {
        let body = frame_body(data, index);
        let here = if occurs(body, FLAG_WORD@) {
            frame_flag_messages(body)
        } else {
            Seq::empty()
        };
        here + flag_messages(data, index + spec_frame_size(data, index))
    } else {
        Seq::empty()
    }
}

/// `v` plus one, saturating.
pub open spec fn inc(v: u8) -> u8 {
    if v < 255 {
        (v + 1) as u8
    } else {
        v
    }
}

/// Counts one event of kind `kind`.
pub open spec fn bump(e: PlayerFlagEvents, kind: FlagEvent) -> PlayerFlagEvents {
    match kind {
        FlagEvent::Capture => PlayerFlagEvents { captures: inc(e.captures), ..e },
        FlagEvent::GotFlag => PlayerFlagEvents { pickups: inc(e.pickups), ..e },
        FlagEvent::ReturnFlag => PlayerFlagEvents { returns: inc(e.returns), ..e },
        FlagEvent::ReturnFlagAssist => PlayerFlagEvents { carrier_frags: inc(e.carrier_frags), ..e },
        FlagEvent::Defend => PlayerFlagEvents { defends: inc(e.defends), ..e },
        FlagEvent::DefendCarrier => PlayerFlagEvents { carrier_defends: inc(e.carrier_defends), ..e },
        FlagEvent::DefendCarrierVsAggressive => PlayerFlagEvents {
            carrier_defends_vs_aggressive: inc(e.carrier_defends_vs_aggressive),
            ..e
        },
    }
}

/// No events.
pub open spec fn no_events() -> PlayerFlagEvents {
    PlayerFlagEvents {
        captures: 0,
        pickups: 0,
        returns: 0,
        carrier_frags: 0,
        defends: 0,
        carrier_defends: 0,
        carrier_defends_vs_aggressive: 0,
    }
}

/// Flag events by player name.
pub type FlagTallyView = Seq<(Seq<char>, PlayerFlagEvents)>;

pub open spec fn flag_tally_view(t: Seq<(String, PlayerFlagEvents)>) -> FlagTallyView {
    Seq::new(t.len(), |i: int| (t[i].0@, t[i].1))
}

/// Index of the entry for `name`, from `k` on.
pub open spec fn flag_entry(t: FlagTallyView, name: Seq<char>, k: int) -> Option<int>
    decreases t.len() - k,
{
    if 0 <= k < t.len() {
        if t[k].0 == name {
            Some(k)
        } else {
            flag_entry(t, name, k + 1)
        }
    } else {
        None
    }
}

/// No two entries share a name.
pub open spec fn distinct_flag_names(t: FlagTallyView) -> bool {
    forall|i: int, j: int| 0 <= i < j < t.len() ==> #[trigger] t[i].0 != #[trigger] t[j].0
}

proof fn lemma_flag_entry(t: FlagTallyView, name: Seq<char>, k: int)
    requires
        0 <= k,
    ensures
        match flag_entry(t, name, k) {
            Some(i) => k <= i < t.len() && t[i].0 == name,
            None => forall|j: int| k <= j < t.len() ==> t[j].0 != name,
        },
    decreases t.len() - k,
{
    if 0 <= k < t.len() && t[k].0 != name {
        lemma_flag_entry(t, name, k + 1);
    }
}

/// The flag tally holds each name once.
pub proof fn lemma_flag_tally_distinct(ms: Seq<Seq<u8>>)
    ensures
        distinct_flag_names(flag_tally(ms)),
    decreases ms.len(),
{
    if ms.len() > 0 {
        lemma_flag_tally_distinct(ms.drop_last());
        let t = flag_tally(ms.drop_last());
        if let Some(EventView::FlagAlert(p, kind)) = spec_classify(trimmed_end(latin1(ms.last()))) {
            lemma_flag_entry(t, p, 0);
            let r = flag_add(t, p, kind);
            assert forall|i: int, j: int| 0 <= i < j < r.len() implies #[trigger] r[i].0
                != #[trigger] r[j].0 by {
                if j == t.len() {
                    assert(t[i].0 != p);
                } else {
                    assert(t[i].0 != t[j].0);
                }
            }
        }
    }
}

/// Counts an event of `name`, making an entry where there is none.
pub open spec fn flag_add(t: FlagTallyView, name: Seq<char>, kind: FlagEvent) -> FlagTallyView {
    match flag_entry(t, name, 0) {
        Some(i) => t.update(i, (name, bump(t[i].1, kind))),
        None => t.push((name, bump(no_events(), kind))),
    }
}

/// The flag events of the messages `ms`, by player.
pub open spec fn flag_tally(ms: Seq<Seq<u8>>) -> FlagTallyView
    decreases ms.len(),
{
    if ms.len() == 0 {
        Seq::empty()
    } else {
        let t = flag_tally(ms.drop_last());
        match spec_classify(trimmed_end(latin1(ms.last()))) {
            Some(EventView::FlagAlert(p, kind)) => flag_add(t, p, kind),
            _ => t,
        }
    }
}

/// The flag events of the stream, by player.
pub open spec fn spec_flag_events(data: Seq<u8>) -> FlagTallyView {
    flag_tally(flag_messages(data, 0))
}

/// The high-priority, non-empty texts of the print records at the start of
/// a frame body.
fn read_high_texts(body: &[u8]) -> (r: Vec<Vec<u8>>)
    ensures
        r@.len() == high_texts(frame_prints(body@, 0)).len(),
        forall|i: int|
            0 <= i < r@.len() ==> #[trigger] r@[i]@ == high_texts(frame_prints(body@, 0))[i],
{
    let read = read_prints(body);
    let ps = read.0;
    let ghost fp = frame_prints(body@, 0);
    let n = ps.len();
    assert forall|i: int| 0 <= i < n implies view_of(#[trigger] ps@[i]) == fp[i] by {
        assert(view_of(read.0@[i]) == fp[i]);
    }
    let mut result: Vec<Vec<u8>> = Vec::new();
    let mut k: usize = 0;
    while k < n
        invariant
            n == ps@.len(),
            n == fp.len(),
            k <= n,
            forall|i: int| 0 <= i < n ==> view_of(#[trigger] ps@[i]) == fp[i],
            result@.len() == high_texts(fp.subrange(0, k as int)).len(),
            forall|i: int|
                0 <= i < result@.len() ==> #[trigger] result@[i]@ == high_texts(
                    fp.subrange(0, k as int),
                )[i],
        decreases n - k,
    {
        assert(fp.subrange(0, k + 1).drop_last() =~= fp.subrange(0, k as int));
        assert(view_of(ps@[k as int]) == fp[k as int]);
        if ps[k].id == PrintId::High && ps[k].content.len() > 0 {
            let text = vstd::slice::slice_to_vec(ps[k].content.as_slice());
            result.push(text);
        }
        k = k + 1;
    }
    assert(fp.subrange(0, n as int) =~= fp);
    result
}

/// Whether `t` is the second half of a flag message.
fn flag_ending(t: &[u8]) -> (r: bool)
    ensures
        r == is_flag_ending(t@),
{
    let text = to_unicode(t);
    let chars = crate::event::chars_of(text.as_str());
    suffix_name_of(chars.as_slice(), &flag_message_endings()).is_some()
}

/// The flag messages of one frame body: print texts, the halves of a
/// message joined.
fn frame_flag_texts(body: &[u8], out: &mut Vec<Vec<u8>>)
    ensures
        final(out)@.len() == old(out)@.len() + frame_flag_messages(body@).len(),
        forall|i: int| 0 <= i < old(out)@.len() ==> #[trigger] final(out)@[i] == old(out)@[i],
        forall|i: int|
            0 <= i < frame_flag_messages(body@).len() ==> #[trigger] final(out)@[old(out)@.len() + i]@
                == frame_flag_messages(body@)[i],
{
    let texts = read_high_texts(body);
    let ghost hs = high_texts(frame_prints(body@, 0));
    let n = texts.len();
    let base = out.len();
    let mut current: Vec<u8> = Vec::new();
    let mut k: usize = 0;
    while k < n
        invariant
            n == texts@.len(),
            n == hs.len(),
            forall|i: int| 0 <= i < n ==> #[trigger] texts@[i]@ == hs[i],
            k <= n,
            base <= out@.len(),
            base == old(out)@.len(),
            forall|i: int| 0 <= i < base ==> #[trigger] out@[i] == old(out)@[i],
            out@.len() - base == join_texts(hs.subrange(0, k as int)).0.len(),
            forall|i: int|
                0 <= i < out@.len() - base ==> #[trigger] out@[base + i]@ == join_texts(
                    hs.subrange(0, k as int),
                ).0[i],
            current@ == join_texts(hs.subrange(0, k as int)).1,
        decreases n - k,
    {
        assert(hs.subrange(0, k + 1).drop_last() =~= hs.subrange(0, k as int));
        let t = texts[k].as_slice();
        if current.len() == 0 {
            current = vstd::slice::slice_to_vec(t);
        } else {
            let mut joined = current;
            if flag_ending(t) {
                joined.extend_from_slice(t);
            }
            out.push(joined);
            current = Vec::new();
            let ghost j = join_texts(hs.subrange(0, k + 1)).0;
            assert(out@.len() - base == j.len());
            assert forall|i: int| 0 <= i < out@.len() - base implies #[trigger] out@[base + i]@ == j[i] by {
                if i < out@.len() - base - 1 {
                    assert(j[i] == join_texts(hs.subrange(0, k as int)).0[i]);
                }
            }
        }
        k = k + 1;
    }
    assert(hs.subrange(0, n as int) =~= hs);
    if current.len() > 0 {
        out.push(current);
    }
}

/// Counts an event of `name`, making an entry where there is none.
fn add_flag_event(t: &mut Vec<(String, PlayerFlagEvents)>, name: String, kind: FlagEvent)
    ensures
        flag_tally_view(final(t)@) == flag_add(flag_tally_view(old(t)@), name@, kind),
{
    let n = t.len();
    let mut k: usize = 0;
    while k < n
        invariant
            n == t@.len(),
            k <= n,
            *t == *old(t),
            flag_entry(flag_tally_view(t@), name@, 0) == flag_entry(flag_tally_view(t@), name@, k as int),
        decreases n - k,
    {
        if t[k].0 == name {
            let e = bump_events(t[k].1, kind);
            let ghost name_view = name@;
            t.set(k, (name, e));
            assert(flag_tally_view(t@) =~= flag_tally_view(old(t)@).update(
                k as int,
                (name_view, bump(old(t)@[k as int].1, kind)),
            ));
            return;
        }
        k = k + 1;
    }
    let e = bump_events(
        PlayerFlagEvents {
            captures: 0,
            pickups: 0,
            returns: 0,
            carrier_frags: 0,
            defends: 0,
            carrier_defends: 0,
            carrier_defends_vs_aggressive: 0,
        },
        kind,
    );
    t.push((name, e));
    assert(flag_tally_view(t@) =~= flag_tally_view(old(t)@).push((name@, bump(no_events(), kind))));
}

fn inc_count(v: u8) -> (r: u8)
    ensures
        r == inc(v),
{
    if v < 255 {
        v + 1
    } else {
        v
    }
}

fn bump_events(e: PlayerFlagEvents, kind: FlagEvent) -> (r: PlayerFlagEvents)
    ensures
        r == bump(e, kind),
{
    let mut r = e;
    match kind {
        FlagEvent::Capture => r.captures = inc_count(e.captures),
        FlagEvent::GotFlag => r.pickups = inc_count(e.pickups),
        FlagEvent::ReturnFlag => r.returns = inc_count(e.returns),
        FlagEvent::ReturnFlagAssist => r.carrier_frags = inc_count(e.carrier_frags),
        FlagEvent::Defend => r.defends = inc_count(e.defends),
        FlagEvent::DefendCarrier => r.carrier_defends = inc_count(e.carrier_defends),
        FlagEvent::DefendCarrierVsAggressive => r.carrier_defends_vs_aggressive = inc_count(
            e.carrier_defends_vs_aggressive,
        ),
    }
    r
}

/// Flag events per player name, from the stream's flag messages.
pub fn flag_events_per_player_name(data: &[u8]) -> (r: Vec<(String, PlayerFlagEvents)>)
    ensures
        flag_tally_view(r@) == spec_flag_events(data@),
        distinct_flag_names(flag_tally_view(r@)),
{
    proof {
        lemma_flag_tally_distinct(flag_messages(data@, 0));
    }
    let len = data.len();
    let word = FLAG_WORD;
    let mut index: usize = 0;
    let mut messages: Vec<Vec<u8>> = Vec::new();
    let ghost mut seen: Seq<Seq<u8>> = Seq::empty();
    loop
        invariant_except_break
            flag_messages(data@, 0) == seen + flag_messages(data@, index as int),
        invariant
            len == data@.len(),
            word == FLAG_WORD,
            index <= len,
            messages@.len() == seen.len(),
            forall|i: int| 0 <= i < seen.len() ==> #[trigger] messages@[i]@ == seen[i],
        ensures
            flag_messages(data@, 0) == seen,
        decreases len - index,
    {
        let info = match Info::from_data_and_index(data, index) {
            Ok(info) => info,
            Err(_) => {
                assert(seen + flag_messages(data@, index as int) =~= seen);
                break;
            },
        };
        let body = &data[info.body_range.start..info.body_range.end];
        assert(body@ == frame_body(data@, index as int));
        let ghost seen0 = seen;
        match find(body, word.as_slice()) {
            Some(_) => {
                let ghost fm = frame_flag_messages(body@);
                frame_flag_texts(body, &mut messages);
                proof {
                    seen = seen + fm;
                    assert forall|i: int| 0 <= i < seen.len() implies #[trigger] messages@[i]@
                        == seen[i] by {
                        if i >= seen0.len() {
                            assert(messages@[seen0.len() + (i - seen0.len())]@ == fm[i - seen0.len()]);
                        }
                    }
                }
            },
            None => {},
        }
        assert(seen0 + flag_messages(data@, index as int) =~= seen + flag_messages(
            data@,
            index + info.size,
        ));
        index = index + info.size;
    }
    let mut tally: Vec<(String, PlayerFlagEvents)> = Vec::new();
    let m = messages.len();
    let mut k: usize = 0;
    while k < m
        invariant
            m == messages@.len(),
            m == seen.len(),
            flag_messages(data@, 0) == seen,
            forall|i: int| 0 <= i < m ==> #[trigger] messages@[i]@ == seen[i],
            k <= m,
            flag_tally_view(tally@) == flag_tally(seen.subrange(0, k as int)),
        decreases m - k,
    {
        assert(seen.subrange(0, k + 1).drop_last() =~= seen.subrange(0, k as int));
        let text = to_unicode(messages[k].as_slice());
        let trimmed = trim_end(text.as_str());
        match Event::try_from(trimmed) {
            Ok(Event::FlagAlert { player, event }) => add_flag_event(&mut tally, player, event),
            _ => {},
        }
        k = k + 1;
    }
    assert(seen.subrange(0, m as int) =~= seen);
    tally
}

} // verus!
