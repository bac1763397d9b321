use vstd::prelude::*;

use crate::bytes::{first_byte, is_first_byte, lemma_byte_positions};
use crate::client::{clients, is_client_of, is_roster, same_client, same_clients, with_spectator_flag, Client};
use crate::clientinfo::spec_clientinfo_strings;
use crate::ctf::{add_team_bonus, points_fold, points_for, spec_points};
use crate::flags::{flag_events_per_player_name, spec_flag_events, FlagTallyView};
use crate::ktxstats::{frags_view, ktxstats_frags, ktxstats_frags_of, ktxstats_string, spec_document};
use crate::serverinfo::{is_ctf, spec_is_ctf};
use crate::error::Error;
use crate::event::{spec_classify, Event, EventView};
use crate::frame::{frame_fits, spec_body_size, spec_frame_size, Info};
use crate::pings::frame_body;
use crate::qw::{spec_print_id, Message, PrintId};
use crate::reader::{ends_with_newline, is_first_zero, raw_len, strip_newline, Cursor, Print};
use crate::text::{latin1, to_unicode, trim_end, trimmed_end};

verus! {

/// Tag byte of a print record.
pub const PRINT_TAG: u8 = 8;

/// Tag byte of a frag update.
pub const UPDATE_FRAGS_TAG: u8 = 14;

/// Frames, the one with the print included, that the team-kill search reads.
pub const TEAMKILL_WINDOW: usize = 3;

/// A print record as id, text without a trailing newline, and whether one
/// was dropped.
pub type PrintView = (PrintId, Seq<u8>, bool);

pub open spec fn view_of(p: Print) -> PrintView {
    (p.id, p.content@, p.trailing_newline)
}

/// End (exclusive) of the text of a print record whose text starts at `from`.
pub open spec fn text_end(body: Seq<u8>, from: int) -> Option<int> {
    match first_byte(body.subrange(from, body.len() as int), 0) {
        Some(t) => Some(from + t),
        None => None,
    }
}

/// The print records at the start of a frame body, from `pos` on: id and text.
pub open spec fn frame_prints(body: Seq<u8>, pos: int) -> Seq<PrintView>
    decreases body.len() - pos,
{
    if 0 <= pos && pos + 2 <= body.len() && body[pos] == PRINT_TAG {
        match text_end(body, pos + 2) {
            Some(end) => if end < body.len() {
                seq![
                    (
                        spec_print_id(body[pos + 1]),
                        strip_newline(body.subrange(pos + 2, end)),
                        ends_with_newline(body.subrange(pos + 2, end)),
                    ),
                ] + frame_prints(
                    body,
                    end + 1,
                )
            } else {
                Seq::empty()
            },
            None => Seq::empty(),
        }
    } else {
        Seq::empty()
    }
}

/// Position after the print records at the start of a frame body.
pub open spec fn after_prints(body: Seq<u8>, pos: int) -> int
    decreases body.len() - pos,
{
    if 0 <= pos && pos + 2 <= body.len() && body[pos] == PRINT_TAG {
        match text_end(body, pos + 2) {
            Some(end) => if end < body.len() {
                after_prints(body, end + 1)
            } else {
                pos
            },
            None => pos,
        }
    } else {
        pos
    }
}

/// The medium-priority, non-empty texts of `ps`, each with `index`.
pub open spec fn medium_texts(ps: Seq<PrintView>, index: int) -> Seq<(Seq<u8>, int)>
    decreases ps.len(),
{
    if ps.len() == 0 {
        Seq::empty()
    } else {
        let rest = medium_texts(ps.drop_last(), index);
        if ps.last().0 == PrintId::Medium && ps.last().1.len() > 0 {
            rest.push((ps.last().1, index))
        } else {
            rest
        }
    }
}

/// The medium-priority print texts of the stream from the frame at `index`
/// on, each with the position of its frame.
pub open spec fn medium_prints(data: Seq<u8>, index: int) -> Seq<(Seq<u8>, int)>
    decreases data.len() - index,
{
    if frame_fits(data, index) {
        medium_texts(frame_prints(frame_body(data, index), 0), index) + medium_prints(
            data,
            index + spec_frame_size(data, index),
        )
    } else {
        Seq::empty()
    }
}

/// Player slots of the frag updates at the start of a body, from `pos` on.
pub open spec fn frag_slots(body: Seq<u8>, pos: int) -> Seq<u8>
    decreases body.len() - pos,
{
    if 0 <= pos && pos + 4 <= body.len() && body[pos] == UPDATE_FRAGS_TAG {
        seq![body[pos + 1]] + frag_slots(body, pos + 4)
    } else {
        Seq::empty()
    }
}

/// Player slots of the frag updates that follow a print: in the frame of the
/// print after its print records, then at the start of the next non-empty
/// frames, up to the window.
pub open spec fn teamkill_slots(data: Seq<u8>, index: int, frame_count: int) -> Seq<u8>
    decreases data.len() - index,
{
    if frame_fits(data, index) && 1 <= frame_count <= TEAMKILL_WINDOW {
        let next = index + spec_frame_size(data, index);
        if spec_body_size(data, index) == 0 {
            teamkill_slots(data, next, frame_count)
        } else {
            let body = frame_body(data, index);
            let start = if frame_count == 1 {
                after_prints(body, 0)
            } else {
                0
            };
            frag_slots(body, start) + teamkill_slots(data, next, frame_count + 1)
        }
    } else {
        Seq::empty()
    }
}

/// `c` is a player that a frag update names, of the victim's team and not
/// the victim.
pub open spec fn is_candidate(c: Client, slots: Seq<u8>, victim: Client) -> bool {
    slots.contains(c.number) && c.team@ == victim.team@ && c.name@ != victim.name@
}

/// Number of candidates in `cs`.
pub open spec fn candidate_count(cs: Seq<Client>, slots: Seq<u8>, victim: Client) -> int
    decreases cs.len(),
{
    if cs.len() == 0 {
        0
    } else {
        candidate_count(cs.drop_last(), slots, victim) + if is_candidate(cs.last(), slots, victim) {
            1int
        } else {
            0
        }
    }
}

/// Name of the last candidate in `cs`.
pub open spec fn last_candidate(cs: Seq<Client>, slots: Seq<u8>, victim: Client) -> Seq<char>
    decreases cs.len(),
{
    if cs.len() == 0 {
        Seq::empty()
    } else if is_candidate(cs.last(), slots, victim) {
        cs.last().name@
    } else {
        last_candidate(cs.drop_last(), slots, victim)
    }
}

/// Index of the first client named `name`, from `k` on.
pub open spec fn index_of_name(cs: Seq<Client>, name: Seq<char>, k: int) -> Option<int>
    decreases cs.len() - k,
{
    if 0 <= k < cs.len() {
        if cs[k].name@ == name {
            Some(k)
        } else {
            index_of_name(cs, name, k + 1)
        }
    } else {
        None
    }
}

/// The killer of an anonymous teamkill: the one player of the victim's team,
/// other than the victim, that the nearby frag updates name.
pub open spec fn resolve_killer(cs: Seq<Client>, slots: Seq<u8>, victim: Seq<char>) -> Option<Seq<char>> {
    match index_of_name(cs, victim, 0) {
        Some(v) => if candidate_count(cs, slots, cs[v]) == 1 {
            Some(last_candidate(cs, slots, cs[v]))
        } else {
            None
        },
        None => None,
    }
}

/// A tally of scores by player name.
pub type TallyView = Seq<(Seq<char>, int)>;

pub open spec fn tally_view(t: Seq<(String, i32)>) -> TallyView {
    Seq::new(t.len(), |i: int| (t[i].0@, t[i].1 as int))
}

/// `v` clamped to the range of `i32`.
pub open spec fn clamp_i32(v: int) -> int {
    if v > i32::MAX {
        i32::MAX as int
    } else if v < i32::MIN {
        i32::MIN as int
    } else {
        v
    }
}

/// Index of the entry for `name`, from `k` on.
pub open spec fn entry_of(t: TallyView, name: Seq<char>, k: int) -> Option<int>
    decreases t.len() - k,
{
    if 0 <= k < t.len() {
        if t[k].0 == name {
            Some(k)
        } else {
            entry_of(t, name, k + 1)
        }
    } else {
        None
    }
}

/// Adds `delta` to the score of `name`, making an entry where there is none.
pub open spec fn tally_add(t: TallyView, name: Seq<char>, delta: int) -> TallyView {
    match entry_of(t, name, 0) {
        Some(i) => t.update(i, (name, clamp_i32(t[i].1 + delta))),
        None => t.push((name, clamp_i32(delta))),
    }
}

/// No two entries of the tally share a name.
pub open spec fn distinct_names(t: TallyView) -> bool {
    forall|i: int, j: int| 0 <= i < j < t.len() ==> #[trigger] t[i].0 != #[trigger] t[j].0
}

/// `entry_of` finds the first entry for `name`, or tells that there is none.
pub proof fn lemma_entry_of(t: TallyView, name: Seq<char>, k: int)
    requires
        0 <= k,
    ensures
        match entry_of(t, name, k) {
            Some(i) => k <= i < t.len() && t[i].0 == name,
            None => forall|j: int| k <= j < t.len() ==> t[j].0 != name,
        },
    decreases t.len() - k,
{
    if 0 <= k < t.len() && t[k].0 != name {
        lemma_entry_of(t, name, k + 1);
    }
}

/// Adding to a tally keeps its names distinct.
pub proof fn lemma_tally_add_distinct(t: TallyView, name: Seq<char>, delta: int)
    requires
        distinct_names(t),
    ensures
        distinct_names(tally_add(t, name, delta)),
{
    lemma_entry_of(t, name, 0);
    let r = tally_add(t, name, delta);
    assert forall|i: int, j: int| 0 <= i < j < r.len() implies #[trigger] r[i].0 != #[trigger] r[j].0 by {
        if j == t.len() {
            assert(t[i].0 != name);
        } else {
            assert(t[i].0 != t[j].0);
        }
    }
}

/// Sets the score of `name`, making an entry where there is none.
pub open spec fn tally_set(t: TallyView, name: Seq<char>, v: int) -> TallyView {
    match entry_of(t, name, 0) {
        Some(i) => t.update(i, (name, v)),
        None => t.push((name, v)),
    }
}

/// The tally of a list of scores, the last score of a name winning.
pub open spec fn scores_tally(f: Seq<(Seq<char>, i32)>) -> TallyView
    decreases f.len(),
{
    if f.len() == 0 {
        Seq::empty()
    } else {
        tally_set(scores_tally(f.drop_last()), f.last().0, f.last().1 as int)
    }
}

pub proof fn lemma_scores_tally_distinct(f: Seq<(Seq<char>, i32)>)
    ensures
        distinct_names(scores_tally(f)),
    decreases f.len(),
{
    if f.len() > 0 {
        let t = scores_tally(f.drop_last());
        lemma_scores_tally_distinct(f.drop_last());
        lemma_entry_of(t, f.last().0, 0);
        let r = scores_tally(f);
        assert forall|i: int, j: int| 0 <= i < j < r.len() implies #[trigger] r[i].0
            != #[trigger] r[j].0 by {
            if j == t.len() {
                assert(t[i].0 != f.last().0);
            } else {
                assert(t[i].0 != t[j].0);
            }
        }
    }
}

pub proof fn lemma_initial_distinct(cs: Seq<Client>)
    ensures
        distinct_names(initial_tally(cs)),
    decreases cs.len(),
{
    if cs.len() > 0 {
        lemma_initial_distinct(cs.drop_last());
        lemma_tally_add_distinct(initial_tally(cs.drop_last()), cs.last().name@, 0);
    }
}

pub proof fn lemma_tally_prints_distinct(data: Seq<u8>, cs: Seq<Client>, ps: Seq<(Seq<u8>, int)>)
    ensures
        distinct_names(tally_prints(data, cs, ps)),
    decreases ps.len(),
{
    if ps.len() == 0 {
        lemma_initial_distinct(with_spectator_flag(cs, false));
    } else {
        lemma_tally_prints_distinct(data, cs, ps.drop_last());
        let t = tally_prints(data, cs, ps.drop_last());
        let e = print_event(ps.last().0);
        let k = event_killer(data, cs, e, ps.last().1);
        match e {
            Some(EventView::Frag(x, _)) => lemma_tally_add_distinct(t, x, 1),
            Some(EventView::Death(p)) => lemma_tally_add_distinct(t, p, -1),
            Some(EventView::Suicide(p)) => lemma_tally_add_distinct(t, p, -2),
            Some(EventView::SuicideByWeapon(p)) => lemma_tally_add_distinct(t, p, -1),
            Some(EventView::Teamkill(x)) => lemma_tally_add_distinct(t, x, -1),
            Some(EventView::TeamkillByUnknown(_)) => {
                if let Some(x) = k {
                    lemma_tally_add_distinct(t, x, -1);
                }
            },
            _ => {},
        }
    }
}

/// A tally with an entry of zero for each player of `cs`.
pub open spec fn initial_tally(cs: Seq<Client>) -> TallyView
    decreases cs.len(),
{
    if cs.len() == 0 {
        Seq::empty()
    } else {
        tally_add(initial_tally(cs.drop_last()), cs.last().name@, 0)
    }
}

/// The event a print text describes.
pub open spec fn print_event(text: Seq<u8>) -> Option<EventView> {
    spec_classify(trimmed_end(latin1(text)))
}

/// Applies one event to a tally; `killer` is the resolved killer of an
/// anonymous teamkill.
pub open spec fn apply_event(t: TallyView, e: Option<EventView>, killer: Option<Seq<char>>) -> TallyView {
    match e {
        Some(EventView::Frag(k, _)) => tally_add(t, k, 1),
        Some(EventView::Death(p)) => tally_add(t, p, -1),
        Some(EventView::Suicide(p)) => tally_add(t, p, -2),
        Some(EventView::SuicideByWeapon(p)) => tally_add(t, p, -1),
        Some(EventView::Teamkill(k)) => tally_add(t, k, -1),
        Some(EventView::TeamkillByUnknown(_)) => match killer {
            Some(k) => tally_add(t, k, -1),
            None => t,
        },
        _ => t,
    }
}

/// The killer resolved for the event of the print in the frame at `index`.
pub open spec fn event_killer(data: Seq<u8>, cs: Seq<Client>, e: Option<EventView>, index: int) -> Option<
    Seq<char>,
> {
    match e {
        Some(EventView::TeamkillByUnknown(v)) => resolve_killer(cs, teamkill_slots(data, index, 1), v),
        _ => None,
    }
}

/// The tally after the prints `ps`.
pub open spec fn tally_prints(data: Seq<u8>, cs: Seq<Client>, ps: Seq<(Seq<u8>, int)>) -> TallyView
    decreases ps.len(),
{
    if ps.len() == 0 {
        initial_tally(with_spectator_flag(cs, false))
    } else {
        let e = print_event(ps.last().0);
        apply_event(
            tally_prints(data, cs, ps.drop_last()),
            e,
            event_killer(data, cs, e, ps.last().1),
        )
    }
}

/// Frag score per player name, counted from the stream's console messages.
pub open spec fn spec_frag_tally(data: Seq<u8>, cs: Seq<Client>) -> TallyView {
    tally_prints(data, cs, medium_prints(data, 0))
}

/// The print records at the start of a frame body.
pub fn read_prints(body: &[u8]) -> (r: (Vec<Print>, usize))
    ensures
        r.0@.len() == frame_prints(body@, 0).len(),
        forall|i: int| 0 <= i < r.0@.len() ==> view_of(#[trigger] r.0@[i]) == frame_prints(body@, 0)[i],
        r.1 == after_prints(body@, 0),
{
    let len = body.len();
    let mut cursor = Cursor::new(body);
    let mut result: Vec<Print> = Vec::new();
    let ghost mut seen: Seq<PrintView> = Seq::empty();
    let mut stop: usize = 0;
    loop
        invariant_except_break
            frame_prints(body@, 0) == seen + frame_prints(body@, cursor.position as int),
            after_prints(body@, 0) == after_prints(body@, cursor.position as int),
        invariant
            len == body@.len(),
            cursor.data@ == body@,
            result@.len() == seen.len(),
            forall|i: int| 0 <= i < seen.len() ==> view_of(#[trigger] result@[i]) == seen[i],
        ensures
            frame_prints(body@, 0) == seen,
            after_prints(body@, 0) == stop,
        decreases len + 1 - cursor.position,
    {
        let pos = cursor.position;
        proof {
            if pos + 2 <= len {
                lemma_byte_positions(body@.subrange(pos + 2, len as int), 0);
            }
        }
        let is_print = match cursor.read_message_type() {
            Ok(Message::Print) => true,
            _ => false,
        };
        if !is_print {
            assert(seen + frame_prints(body@, pos as int) =~= seen);
            stop = pos;
            break;
        }
        let p = match cursor.read_print() {
            Ok(p) => p,
            Err(_) => {
                proof {
                    if pos + 2 <= len {
                        assert forall|j: int|
                            0 <= j < len - (pos + 2) implies #[trigger] body@.subrange(
                            pos + 2,
                            len as int,
                        )[j] != 0 by {
                            assert(body@[pos + 2 + j] != 0);
                        }
                    }
                }
                assert(seen + frame_prints(body@, pos as int) =~= seen);
                stop = pos;
                break;
            },
        };
        let ghost end = pos + 2 + raw_len(p);
        assert(is_first_zero(body@, pos + 2, end));
        assert(is_first_byte(body@.subrange(pos + 2, len as int), 0, end - (pos + 2)));
        assert(text_end(body@, pos + 2) == Some(end));
        let ghost item = view_of(p);
        let ghost seen0 = seen;
        proof {
            seen = seen.push(item);
            assert(frame_prints(body@, pos as int) == seq![item] + frame_prints(body@, end + 1));
            assert(seen0 + (seq![item] + frame_prints(body@, end + 1)) =~= seen + frame_prints(
                body@,
                end + 1,
            ));
        }
        result.push(p);
    }
    (result, stop)
}

/// `r` holds the texts and frame positions of `s`, in order.
pub open spec fn texts_match(r: Seq<(Vec<u8>, usize)>, s: Seq<(Seq<u8>, int)>) -> bool {
    r.len() == s.len() && forall|i: int|
        0 <= i < r.len() ==> #[trigger] r[i].0@ == s[i].0 && r[i].1 == s[i].1
}

/// The medium-priority print texts of the stream, each with the position of
/// its frame.
pub fn medium_print_list(data: &[u8]) -> (r: Vec<(Vec<u8>, usize)>)
    ensures
        texts_match(r@, medium_prints(data@, 0)),
{
    let len = data.len();
    let mut index: usize = 0;
    let mut result: Vec<(Vec<u8>, usize)> = Vec::new();
    let ghost mut seen: Seq<(Seq<u8>, int)> = Seq::empty();
    loop
        invariant_except_break
            medium_prints(data@, 0) == seen + medium_prints(data@, index as int),
        invariant
            len == data@.len(),
            index <= len,
            texts_match(result@, seen),
        ensures
            medium_prints(data@, 0) == seen,
        decreases len - index,
    {
        let info = match Info::from_data_and_index(data, index) {
            Ok(info) => info,
            Err(_) => {
                assert(seen + medium_prints(data@, index as int) =~= seen);
                break;
            },
        };
        let body = &data[info.body_range.start..info.body_range.end];
        assert(body@ == frame_body(data@, index as int));
        let (ps, _) = read_prints(body);
        let ghost fp = frame_prints(body@, 0);
        let n = ps.len();
        let mut k: usize = 0;
        let ghost seen0 = seen;
        while k < n
            invariant
                n == ps@.len(),
                n == fp.len(),
                k <= n,
                forall|i: int|
                    0 <= i < n ==> view_of(#[trigger] ps@[i]) == fp[i],
                seen == seen0 + medium_texts(fp.subrange(0, k as int), index as int),
                texts_match(result@, seen),
            decreases n - k,
        {
            assert(fp.subrange(0, k + 1).drop_last() =~= fp.subrange(0, k as int));
            assert(view_of(ps@[k as int]) == fp[k as int]);
            if ps[k].id == PrintId::Medium && ps[k].content.len() > 0 {
                let text = vstd::slice::slice_to_vec(ps[k].content.as_slice());
                let ghost item = (fp[k as int].1, index as int);
                result.push((text, index));
                proof {
                    seen = seen.push(item);
                    assert(seen =~= seen0 + medium_texts(fp.subrange(0, k + 1), index as int));
                }
            } else {
                assert(seen =~= seen0 + medium_texts(fp.subrange(0, k + 1), index as int));
            }
            k = k + 1;
        }
        assert(fp.subrange(0, n as int) =~= fp);
        assert(seen0 + (medium_texts(fp, index as int) + medium_prints(data@, index + info.size))
            =~= seen + medium_prints(data@, index + info.size));
        index = index + info.size;
    }
    result
}

/// Player slots of the frag updates at the start of a body, from `pos` on.
fn read_frag_slots(body: &[u8], pos: usize) -> (r: Vec<u8>)
    ensures
        r@ == frag_slots(body@, pos as int),
{
    let len = body.len();
    let mut cursor = Cursor::new(body);
    cursor.set_position(pos);
    let mut slots: Vec<u8> = Vec::new();
    loop
        invariant_except_break
            frag_slots(body@, pos as int) == slots@ + frag_slots(body@, cursor.position as int),
        invariant
            len == body@.len(),
            cursor.data@ == body@,
        ensures
            frag_slots(body@, pos as int) == slots@,
        decreases len + 1 - cursor.position,
    {
        let at = cursor.position;
        let is_update = match cursor.read_message_type() {
            Ok(Message::UpdateFrags) => true,
            _ => false,
        };
        if !is_update {
            assert(slots@ + frag_slots(body@, at as int) =~= slots@);
            break;
        }
        match cursor.read_update_frags() {
            Ok(u) => {
                let ghost before = slots@;
                slots.push(u.player_number);
                assert(before + frag_slots(body@, at as int) =~= slots@ + frag_slots(
                    body@,
                    at + 4,
                ));
            },
            Err(_) => {
                assert(slots@ + frag_slots(body@, at as int) =~= slots@);
                break;
            },
        }
    }
    slots
}

/// Player slots of the frag updates that follow the print in the frame at
/// `index`, within the search window.
pub fn teamkill_slots_from(data: &[u8], index: usize) -> (r: Vec<u8>)
    ensures
        r@ == teamkill_slots(data@, index as int, 1),
{
    let len = data.len();
    let mut at = index;
    let mut frame_count: usize = 1;
    let mut slots: Vec<u8> = Vec::new();
    loop
        invariant_except_break
            teamkill_slots(data@, index as int, 1) == slots@ + teamkill_slots(
                data@,
                at as int,
                frame_count as int,
            ),
            1 <= frame_count <= TEAMKILL_WINDOW,
        invariant
            len == data@.len(),
        ensures
            teamkill_slots(data@, index as int, 1) == slots@,
        decreases len - at, TEAMKILL_WINDOW - frame_count,
    {
        let info = match Info::from_data_and_index(data, at) {
            Ok(info) => info,
            Err(_) => {
                assert(slots@ + teamkill_slots(data@, at as int, frame_count as int) =~= slots@);
                break;
            },
        };
        if info.body_size == 0 {
            at = at + info.size;
            continue;
        }
        let body = &data[info.body_range.start..info.body_range.end];
        assert(body@ == frame_body(data@, at as int));
        let start = if frame_count == 1 {
            read_prints(body).1
        } else {
            0
        };
        let found = read_frag_slots(body, start);
        let ghost before = slots@;
        let mut found = found;
        slots.append(&mut found);
        assert(before + teamkill_slots(data@, at as int, frame_count as int) =~= slots@
            + teamkill_slots(data@, at + info.size, frame_count + 1));
        if frame_count == TEAMKILL_WINDOW {
            assert(teamkill_slots(data@, at + info.size, frame_count + 1) =~= Seq::<u8>::empty());
            assert(slots@ + Seq::<u8>::empty() =~= slots@);
            break;
        }
        at = at + info.size;
        frame_count = frame_count + 1;
    }
    slots
}

fn slots_contain(slots: &Vec<u8>, number: u8) -> (r: bool)
    ensures
        r == slots@.contains(number),
{
    let n = slots.len();
    let mut i: usize = 0;
    while i < n
        invariant
            n == slots@.len(),
            i <= n,
            forall|j: int| 0 <= j < i ==> slots@[j] != number,
        decreases n - i,
    {
        if slots[i] == number {
            return true;
        }
        i = i + 1;
    }
    false
}

/// The killer of an anonymous teamkill of `victim`, from the frag updates
/// that name `slots`: the one client of the victim's team, other than the
/// victim, among them; `None` where there is no such client or more than one.
pub fn find_team_killer(cs: &Vec<Client>, slots: &Vec<u8>, victim: &String) -> (r: Option<String>)
    ensures
        match resolve_killer(cs@, slots@, victim@) {
            Some(k) => r matches Some(name) && name@ == k,
            None => r is None,
        },
{
    let n = cs.len();
    let mut v: usize = 0;
    while v < n
        invariant
            n == cs@.len(),
            v <= n,
            index_of_name(cs@, victim@, 0) == index_of_name(cs@, victim@, v as int),
        ensures
            v <= n,
            index_of_name(cs@, victim@, 0) == index_of_name(cs@, victim@, v as int),
            v < n ==> cs@[v as int].name@ == victim@,
        decreases n - v,
    {
        if cs[v].name == *victim {
            break;
        }
        v = v + 1;
    }
    if v == n {
        return None;
    }
    let victim_client = &cs[v];
    let mut count: usize = 0;
    let mut killer: Option<String> = None;
    let mut j: usize = 0;
    while j < n
        invariant
            n == cs@.len(),
            j <= n,
            count <= j,
            count == candidate_count(cs@.subrange(0, j as int), slots@, *victim_client),
            count > 0 ==> (killer matches Some(k) && k@ == last_candidate(
                cs@.subrange(0, j as int),
                slots@,
                *victim_client,
            )),
        decreases n - j,
    {
        assert(cs@.subrange(0, j + 1).drop_last() =~= cs@.subrange(0, j as int));
        let c = &cs[j];
        if slots_contain(slots, c.number) && c.team == victim_client.team && c.name
            != victim_client.name {
            count = count + 1;
            killer = Some(c.name.clone());
        }
        j = j + 1;
    }
    assert(cs@.subrange(0, n as int) =~= cs@);
    if count == 1 {
        killer
    } else {
        None
    }
}

/// Adds `delta` to the score of `name`, making an entry where there is none.
pub(crate) fn add_score(t: &mut Vec<(String, i32)>, name: String, delta: i32)
    ensures
        tally_view(final(t)@) == tally_add(tally_view(old(t)@), name@, delta as int),
{
    let n = t.len();
    let mut k: usize = 0;
    while k < n
        invariant
            n == t@.len(),
            k <= n,
            *t == *old(t),
            entry_of(tally_view(t@), name@, 0) == entry_of(tally_view(t@), name@, k as int),
        decreases n - k,
    {
        if t[k].0 == name {
            let sum = t[k].1 as i64 + delta as i64;
            let v: i32 = if sum > i32::MAX as i64 {
                i32::MAX
            } else if sum < i32::MIN as i64 {
                i32::MIN
            } else {
                sum as i32
            };
            let ghost name_view = name@;
            t.set(k, (name, v));
            assert(tally_view(t@) =~= tally_view(old(t)@).update(
                k as int,
                (name_view, clamp_i32(old(t)@[k as int].1 + delta)),
            ));
            return;
        }
        k = k + 1;
    }
    t.push((name, delta));
    assert(tally_view(t@) =~= tally_view(old(t)@).push((name@, clamp_i32(delta as int))));
}

/// A tally with an entry of zero for each player of `cs`.
pub fn initial_scores(cs: &Vec<Client>) -> (r: Vec<(String, i32)>)
    ensures
        tally_view(r@) == initial_tally(with_spectator_flag(cs@, false)),
{
    let mut t: Vec<(String, i32)> = Vec::new();
    let n = cs.len();
    let mut i: usize = 0;
    while i < n
        invariant
            n == cs@.len(),
            i <= n,
            tally_view(t@) == initial_tally(with_spectator_flag(cs@.subrange(0, i as int), false)),
        decreases n - i,
    {
        assert(cs@.subrange(0, i + 1).drop_last() =~= cs@.subrange(0, i as int));
        let ghost f = with_spectator_flag(cs@.subrange(0, i as int), false);
        if !cs[i].is_spectator {
            assert(with_spectator_flag(cs@.subrange(0, i + 1), false) == f.push(cs@[i as int]));
            assert(f.push(cs@[i as int]).drop_last() =~= f);
            let name = cs[i].name.clone();
            add_score(&mut t, name, 0);
        }
        i = i + 1;
    }
    assert(cs@.subrange(0, n as int) =~= cs@);
    t
}

/// Frag score per player name from the console messages of the stream, for
/// the roster `cs`.
pub fn frag_tally(data: &[u8], cs: &Vec<Client>) -> (r: Vec<(String, i32)>)
    ensures
        tally_view(r@) == spec_frag_tally(data@, cs@),
        distinct_names(tally_view(r@)),
{
    proof {
        lemma_tally_prints_distinct(data@, cs@, medium_prints(data@, 0));
    }
    let mut t = initial_scores(cs);
    let prints = medium_print_list(data);
    let ghost mp = medium_prints(data@, 0);
    let m = prints.len();
    let mut k: usize = 0;
    while k < m
        invariant
            m == prints@.len(),
            texts_match(prints@, mp),
            mp == medium_prints(data@, 0),
            k <= m,
            tally_view(t@) == tally_prints(data@, cs@, mp.subrange(0, k as int)),
        decreases m - k,
    {
        assert(mp.subrange(0, k + 1).drop_last() =~= mp.subrange(0, k as int));
        let text = to_unicode(prints[k].0.as_slice());
        let trimmed = trim_end(text.as_str());
        let frame_index = prints[k].1;
        match Event::try_from(trimmed) {
            Ok(e) => match e {
                Event::Frag { killer, .. } => add_score(&mut t, killer, 1),
                Event::Death { player } => add_score(&mut t, player, -1),
                Event::Suicide { player } => add_score(&mut t, player, -2),
                Event::SuicideByWeapon { player } => add_score(&mut t, player, -1),
                Event::Teamkill { killer } => add_score(&mut t, killer, -1),
                Event::TeamkillByUnknown { victim } => {
                    let slots = teamkill_slots_from(data, frame_index);
                    if let Some(killer) = find_team_killer(cs, &slots, &victim) {
                        add_score(&mut t, killer, -1);
                    }
                },
                Event::FlagAlert { .. } => {},
            },
            Err(_) => {},
        }
        k = k + 1;
    }
    assert(mp.subrange(0, m as int) =~= mp);
    t
}

/// The records of `ps` with non-empty text.
pub open spec fn nonempty_prints(ps: Seq<PrintView>) -> Seq<PrintView>
    decreases ps.len(),
{
    if ps.len() == 0 {
        ps
    } else if ps.last().1.len() > 0 {
        nonempty_prints(ps.drop_last()).push(ps.last())
    } else {
        nonempty_prints(ps.drop_last())
    }
}

/// The print records with text at the start of each frame body, from the
/// frame at `index` on.
pub open spec fn all_prints(data: Seq<u8>, index: int) -> Seq<PrintView>
    decreases data.len() - index,
{
    if frame_fits(data, index) {
        nonempty_prints(frame_prints(frame_body(data, index), 0)) + all_prints(
            data,
            index + spec_frame_size(data, index),
        )
    } else {
        Seq::empty()
    }
}

/// `s` with each run of equal neighbours cut to one.
pub open spec fn dedup(s: Seq<PrintView>) -> Seq<PrintView>
    decreases s.len(),
{
    if s.len() == 0 {
        s
    } else {
        let d = dedup(s.drop_last());
        if d.len() > 0 && d.last() == s.last() {
            d
        } else {
            d.push(s.last())
        }
    }
}

pub open spec fn print_views(r: Seq<Print>) -> Seq<PrintView> {
    Seq::new(r.len(), |i: int| view_of(r[i]))
}

proof fn lemma_dedup_last(s: Seq<PrintView>)
    ensures
        s.len() > 0 ==> dedup(s).len() > 0 && dedup(s).last() == s.last(),
        s.len() == 0 ==> dedup(s).len() == 0,
    decreases s.len(),
{
    if s.len() > 0 {
        lemma_dedup_last(s.drop_last());
    }
}

fn same_bytes(a: &Vec<u8>, b: &Vec<u8>) -> (r: bool)
    ensures
        r == (a@ == b@),
{
    let n = a.len();
    if n != b.len() {
        return false;
    }
    let mut i: usize = 0;
    while i < n
        invariant
            n == a@.len(),
            n == b@.len(),
            i <= n,
            forall|j: int| 0 <= j < i ==> a@[j] == b@[j],
        decreases n - i,
    {
        if a[i] != b[i] {
            return false;
        }
        i = i + 1;
    }
    assert(a@ =~= b@);
    true
}

/// The print records with text at the start of each frame body, in order,
/// with each run of equal neighbours cut to one.
pub fn prints(data: &[u8]) -> (r: Vec<Print>)
    ensures
        print_views(r@) == dedup(all_prints(data@, 0)),
{
    let len = data.len();
    let mut index: usize = 0;
    let mut result: Vec<Print> = Vec::new();
    let ghost mut seen: Seq<PrintView> = Seq::empty();
    loop
        invariant_except_break
            all_prints(data@, 0) == seen + all_prints(data@, index as int),
        invariant
            len == data@.len(),
            index <= len,
            print_views(result@) == dedup(seen),
        ensures
            all_prints(data@, 0) == seen,
        decreases len - index,
    {
        let info = match Info::from_data_and_index(data, index) {
            Ok(info) => info,
            Err(_) => {
                assert(seen + all_prints(data@, index as int) =~= seen);
                break;
            },
        };
        let body = &data[info.body_range.start..info.body_range.end];
        assert(body@ == frame_body(data@, index as int));
        let (ps, _) = read_prints(body);
        let ghost fp = frame_prints(body@, 0);
        let n = ps.len();
        let mut k: usize = 0;
        let ghost seen0 = seen;
        while k < n
            invariant
                n == ps@.len(),
                n == fp.len(),
                k <= n,
                forall|i: int| 0 <= i < n ==> view_of(#[trigger] ps@[i]) == fp[i],
                seen == seen0 + nonempty_prints(fp.subrange(0, k as int)),
                print_views(result@) == dedup(seen),
            decreases n - k,
        {
            assert(fp.subrange(0, k + 1).drop_last() =~= fp.subrange(0, k as int));
            assert(view_of(ps@[k as int]) == fp[k as int]);
            if ps[k].content.len() > 0 {
                let id = ps[k].id;
                let trailing_newline = ps[k].trailing_newline;
                let content = vstd::slice::slice_to_vec(ps[k].content.as_slice());
                let ghost item = (id, content@, trailing_newline);
                let ghost old_seen = seen;
                proof {
                    seen = seen.push(item);
                    assert(fp.subrange(0, k + 1).last() == item);
                    assert(seen =~= seen0 + nonempty_prints(fp.subrange(0, k + 1)));
                    assert(seen.drop_last() =~= old_seen);
                    lemma_dedup_last(old_seen);
                }
                let m = result.len();
                let dup = if m > 0 {
                    result[m - 1].id == id && result[m - 1].trailing_newline == trailing_newline
                        && same_bytes(&result[m - 1].content, &content)
                } else {
                    false
                };
                assert(m > 0 ==> print_views(result@).last() == view_of(result@[m - 1]));
                if !dup {
                    let ghost before = print_views(result@);
                    result.push(Print { id, content, trailing_newline });
                    assert(print_views(result@) =~= before.push(item));
                }
            } else {
                assert(fp.subrange(0, k + 1).last().1.len() == 0);
                assert(nonempty_prints(fp.subrange(0, k + 1)) == nonempty_prints(fp.subrange(0, k as int)));
            }
            k = k + 1;
        }
        assert(fp.subrange(0, n as int) =~= fp);
        assert(seen0 + (nonempty_prints(fp) + all_prints(data@, index + info.size)) =~= seen
            + all_prints(data@, index + info.size));
        index = index + info.size;
    }
    result
}

/// Adds to the tally `t` the points of `pts`, for the players `t` holds.
pub open spec fn merge_points(t: TallyView, pts: TallyView) -> TallyView
    decreases pts.len(),
{
    if pts.len() == 0 {
        t
    } else {
        let prev = merge_points(t, pts.drop_last());
        if entry_of(prev, pts.last().0, 0) is Some {
            tally_add(prev, pts.last().0, pts.last().1)
        } else {
            prev
        }
    }
}

pub proof fn lemma_merge_distinct(t: TallyView, pts: TallyView)
    requires
        distinct_names(t),
    ensures
        distinct_names(merge_points(t, pts)),
    decreases pts.len(),
{
    if pts.len() > 0 {
        lemma_merge_distinct(t, pts.drop_last());
        lemma_tally_add_distinct(merge_points(t, pts.drop_last()), pts.last().0, pts.last().1);
    }
}

/// The parsed tally holds each name once.
pub proof fn lemma_parsed_frags_distinct(data: Seq<u8>, cs: Seq<Client>)
    ensures
        distinct_names(spec_parsed_frags(data, cs)),
{
    lemma_tally_prints_distinct(data, cs, medium_prints(data, 0));
    lemma_merge_distinct(
        spec_frag_tally(data, cs),
        spec_points(cs, spec_flag_events(data)),
    );
}

/// Frag score per player counted from the stream for the roster `cs`, with
/// flag points added in a capture-the-flag match.
pub open spec fn spec_parsed_frags(data: Seq<u8>, cs: Seq<Client>) -> TallyView {
    if spec_is_ctf(data) {
        merge_points(spec_frag_tally(data, cs), spec_points(cs, spec_flag_events(data)))
    } else {
        spec_frag_tally(data, cs)
    }
}

fn has_entry(t: &Vec<(String, i32)>, name: &String) -> (r: bool)
    ensures
        r == entry_of(tally_view(t@), name@, 0) is Some,
{
    let n = t.len();
    let mut k: usize = 0;
    while k < n
        invariant
            n == t@.len(),
            k <= n,
            entry_of(tally_view(t@), name@, 0) == entry_of(tally_view(t@), name@, k as int),
        decreases n - k,
    {
        if t[k].0 == *name {
            return true;
        }
        k = k + 1;
    }
    false
}

proof fn lemma_same_filter(a: Seq<Client>, b: Seq<Client>, spectator: bool)
    requires
        same_clients(a, b),
    ensures
        same_clients(with_spectator_flag(a, spectator), with_spectator_flag(b, spectator)),
    decreases a.len(),
{
    if a.len() > 0 {
        assert(same_client(a.last(), b.last()));
        assert(same_clients(a.drop_last(), b.drop_last())) by {
            assert forall|i: int| 0 <= i < a.len() - 1 implies same_client(
                #[trigger] a.drop_last()[i],
                b.drop_last()[i],
            ) by {
                assert(same_client(a[i], b[i]));
            }
        }
        lemma_same_filter(a.drop_last(), b.drop_last(), spectator);
    }
}

proof fn lemma_same_initial(a: Seq<Client>, b: Seq<Client>)
    requires
        same_clients(a, b),
    ensures
        initial_tally(a) == initial_tally(b),
    decreases a.len(),
{
    if a.len() > 0 {
        assert(same_client(a.last(), b.last()));
        assert(same_clients(a.drop_last(), b.drop_last())) by {
            assert forall|i: int| 0 <= i < a.len() - 1 implies same_client(
                #[trigger] a.drop_last()[i],
                b.drop_last()[i],
            ) by {
                assert(same_client(a[i], b[i]));
            }
        }
        lemma_same_initial(a.drop_last(), b.drop_last());
    }
}

proof fn lemma_same_index(a: Seq<Client>, b: Seq<Client>, name: Seq<char>, k: int)
    requires
        same_clients(a, b),
    ensures
        index_of_name(a, name, k) == index_of_name(b, name, k),
    decreases a.len() - k,
{
    if 0 <= k < a.len() {
        assert(same_client(a[k], b[k]));
        lemma_same_index(a, b, name, k + 1);
    }
}

proof fn lemma_same_candidates(a: Seq<Client>, b: Seq<Client>, slots: Seq<u8>, va: Client, vb: Client)
    requires
        same_clients(a, b),
        same_client(va, vb),
    ensures
        candidate_count(a, slots, va) == candidate_count(b, slots, vb),
        last_candidate(a, slots, va) == last_candidate(b, slots, vb),
    decreases a.len(),
{
    if a.len() > 0 {
        assert(same_client(a.last(), b.last()));
        assert(same_clients(a.drop_last(), b.drop_last())) by {
            assert forall|i: int| 0 <= i < a.len() - 1 implies same_client(
                #[trigger] a.drop_last()[i],
                b.drop_last()[i],
            ) by {
                assert(same_client(a[i], b[i]));
            }
        }
        lemma_same_candidates(a.drop_last(), b.drop_last(), slots, va, vb);
    }
}

proof fn lemma_same_resolve(a: Seq<Client>, b: Seq<Client>, slots: Seq<u8>, victim: Seq<char>)
    requires
        same_clients(a, b),
    ensures
        resolve_killer(a, slots, victim) == resolve_killer(b, slots, victim),
{
    lemma_same_index(a, b, victim, 0);
    if let Some(v) = index_of_name(a, victim, 0) {
        lemma_find_index_bounds(a, victim, 0);
        assert(same_client(a[v], b[v]));
        lemma_same_candidates(a, b, slots, a[v], b[v]);
    }
}

proof fn lemma_find_index_bounds(a: Seq<Client>, name: Seq<char>, k: int)
    ensures
        index_of_name(a, name, k) matches Some(v) ==> 0 <= v < a.len(),
    decreases a.len() - k,
{
    if 0 <= k < a.len() && a[k].name@ != name {
        lemma_find_index_bounds(a, name, k + 1);
    }
}

proof fn lemma_same_tally(data: Seq<u8>, a: Seq<Client>, b: Seq<Client>, ps: Seq<(Seq<u8>, int)>)
    requires
        same_clients(a, b),
    ensures
        tally_prints(data, a, ps) == tally_prints(data, b, ps),
    decreases ps.len(),
{
    if ps.len() == 0 {
        lemma_same_filter(a, b, false);
        lemma_same_initial(with_spectator_flag(a, false), with_spectator_flag(b, false));
    } else {
        lemma_same_tally(data, a, b, ps.drop_last());
        let e = print_event(ps.last().0);
        if let Some(EventView::TeamkillByUnknown(v)) = e {
            lemma_same_resolve(a, b, teamkill_slots(data, ps.last().1, 1), v);
        }
    }
}

proof fn lemma_same_bonus(t: TallyView, a: Seq<Client>, b: Seq<Client>, ca: Client, cb: Client, bonus: int)
    requires
        same_clients(a, b),
        same_client(ca, cb),
    ensures
        add_team_bonus(t, a, ca, bonus) == add_team_bonus(t, b, cb, bonus),
    decreases a.len(),
{
    if a.len() > 0 {
        assert(same_client(a.last(), b.last()));
        assert(same_clients(a.drop_last(), b.drop_last())) by {
            assert forall|i: int| 0 <= i < a.len() - 1 implies same_client(
                #[trigger] a.drop_last()[i],
                b.drop_last()[i],
            ) by {
                assert(same_client(a[i], b[i]));
            }
        }
        lemma_same_bonus(t, a.drop_last(), b.drop_last(), ca, cb, bonus);
    }
}

proof fn lemma_same_points(all_a: Seq<Client>, all_b: Seq<Client>, a: Seq<Client>, b: Seq<Client>, ev: FlagTallyView)
    requires
        same_clients(all_a, all_b),
        same_clients(a, b),
    ensures
        points_fold(all_a, a, ev) == points_fold(all_b, b, ev),
    decreases a.len(),
{
    if a.len() == 0 {
        lemma_same_filter(all_a, all_b, false);
        lemma_same_initial(with_spectator_flag(all_a, false), with_spectator_flag(all_b, false));
    } else {
        assert(same_client(a.last(), b.last()));
        assert(same_clients(a.drop_last(), b.drop_last())) by {
            assert forall|i: int| 0 <= i < a.len() - 1 implies same_client(
                #[trigger] a.drop_last()[i],
                b.drop_last()[i],
            ) by {
                assert(same_client(a[i], b[i]));
            }
        }
        lemma_same_points(all_a, all_b, a.drop_last(), b.drop_last(), ev);
        let prev = points_fold(all_a, a.drop_last(), ev);
        let c = a.last();
        let e = crate::ctf::events_of(ev, c.name@);
        lemma_same_bonus(
            tally_add(prev, c.name@, crate::ctf::player_points(e)),
            all_a,
            all_b,
            a.last(),
            b.last(),
            crate::ctf::team_points(e),
        );
    }
}

/// Two rosters of one stream agree client by client.
pub proof fn lemma_rosters_agree(data: Seq<u8>, a: Seq<Client>, b: Seq<Client>)
    requires
        is_roster(data, a),
        is_roster(data, b),
    ensures
        same_clients(a, b),
{
    let strings = spec_clientinfo_strings(data)->0;
    assert forall|i: int| 0 <= i < a.len() implies same_client(#[trigger] a[i], b[i]) by {
        assert(is_client_of(a[i], crate::client::clientinfo_of(latin1(strings[i])), i as u8));
        assert(is_client_of(b[i], crate::client::clientinfo_of(latin1(strings[i])), i as u8));
    }
}

/// Decoding one stream twice gives the same frag tally: whatever roster
/// value each decode holds, the tally it yields is the same.
pub proof fn lemma_frags_repeatable(data: Seq<u8>, a: Seq<Client>, b: Seq<Client>)
    requires
        is_roster(data, a),
        is_roster(data, b),
    ensures
        spec_parsed_frags(data, a) == spec_parsed_frags(data, b),
{
    lemma_rosters_agree(data, a, b);
    lemma_same_tally(data, a, b, medium_prints(data, 0));
    lemma_same_points(a, b, a, b, spec_flag_events(data));
}

/// Frag score per player name, counted from the stream's console messages.
pub fn frags_from_parsing(data: &[u8]) -> (r: Result<Vec<(String, i32)>, Error>)
    ensures
        match r {
            Ok(t) => distinct_names(tally_view(t@)) && exists|cs: Seq<Client>|
                is_roster(data@, cs) && tally_view(t@) == #[trigger] spec_parsed_frags(data@, cs),
            Err(e) => spec_clientinfo_strings(data@) is None && e == Error::ClientinfoNotFound,
        },
{
    let cs = clients(data)?;
    proof {
        lemma_parsed_frags_distinct(data@, cs@);
    }
    let mut t = frag_tally(data, &cs);
    if is_ctf(data) {
        let ev = flag_events_per_player_name(data);
        let pts = points_for(&cs, &ev);
        let ghost pv = tally_view(pts@);
        let ghost base = tally_view(t@);
        let n = pts.len();
        let mut k: usize = 0;
        while k < n
            invariant
                n == pts@.len(),
                pv == tally_view(pts@),
                k <= n,
                tally_view(t@) == merge_points(base, pv.subrange(0, k as int)),
            decreases n - k,
        {
            assert(pv.subrange(0, k + 1).drop_last() =~= pv.subrange(0, k as int));
            if has_entry(&t, &pts[k].0) {
                add_score(&mut t, pts[k].0.clone(), pts[k].1);
            }
            k = k + 1;
        }
        assert(pv.subrange(0, n as int) =~= pv);
    }
    assert(is_roster(data@, cs@) && tally_view(t@) == spec_parsed_frags(data@, cs@));
    Ok(t)
}

/// Sets the score of `name`, making an entry where there is none.
fn set_score(t: &mut Vec<(String, i32)>, name: String, v: i32)
    ensures
        tally_view(final(t)@) == tally_set(tally_view(old(t)@), name@, v as int),
{
    let n = t.len();
    let mut k: usize = 0;
    while k < n
        invariant
            n == t@.len(),
            k <= n,
            *t == *old(t),
            entry_of(tally_view(t@), name@, 0) == entry_of(tally_view(t@), name@, k as int),
        decreases n - k,
    {
        if t[k].0 == name {
            let ghost name_view = name@;
            t.set(k, (name, v));
            assert(tally_view(t@) =~= tally_view(old(t)@).update(k as int, (name_view, v as int)));
            return;
        }
        k = k + 1;
    }
    t.push((name, v));
    assert(tally_view(t@) =~= tally_view(old(t)@).push((name@, v as int)));
}

/// The tally of a list of scores, the last score of a name winning.
pub fn scores_of(v: &Vec<(String, i32)>) -> (r: Vec<(String, i32)>)
    ensures
        tally_view(r@) == scores_tally(frags_view(v@)),
        distinct_names(tally_view(r@)),
{
    let ghost f = frags_view(v@);
    let n = v.len();
    let mut t: Vec<(String, i32)> = Vec::new();
    let mut k: usize = 0;
    while k < n
        invariant
            n == v@.len(),
            f == frags_view(v@),
            k <= n,
            tally_view(t@) == scores_tally(f.subrange(0, k as int)),
        decreases n - k,
    {
        assert(f.subrange(0, k + 1).drop_last() =~= f.subrange(0, k as int));
        set_score(&mut t, v[k].0.clone(), v[k].1);
        k = k + 1;
    }
    assert(f.subrange(0, n as int) =~= f);
    proof {
        lemma_scores_tally_distinct(f);
    }
    t
}

/// Frag score per player name: as the statistics document records it where
/// the stream holds one that decodes (a name listed twice keeping its last
/// score), else counted from the stream.
pub fn frags(data: &[u8]) -> (r: Result<Vec<(String, i32)>, Error>)
    ensures
        r matches Ok(t) ==> distinct_names(tally_view(t@)),
        match spec_document(data@) {
            Some(d) if ktxstats_frags_of(d) is Some => r matches Ok(v) && tally_view(v@)
                == scores_tally(ktxstats_frags_of(d)->0),
            _ => match r {
                Ok(t) => exists|cs: Seq<Client>|
                    is_roster(data@, cs) && tally_view(t@) == #[trigger] spec_parsed_frags(data@, cs),
                Err(e) => spec_clientinfo_strings(data@) is None && e == Error::ClientinfoNotFound,
            },
        },
{
    if let Ok(doc) = ktxstats_string(data) {
        if let Some(v) = ktxstats_frags(doc.as_str()) {
            return Ok(scores_of(&v));
        }
    }
    frags_from_parsing(data)
}

} // verus!
