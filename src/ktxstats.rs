use vstd::prelude::*;
use vstd::utf8::{decode_utf8, valid_utf8};

use crate::block;
use crate::block::{block_fits, spec_block_body_size};
use crate::bytes::{
    copy_range, is_last_occurrence, occurs_at, last_occurrence, lemma_last_occurrence, lemma_no_last_occurrence,
    occurs, rfind,
};
use crate::error::Error;
use crate::frame::MULTI_HEADER_SIZE;
use crate::num::le_u16_at;
use crate::qw::{spec_hidden_message, HiddenMessage};

verus! {

/// Width of a frame header and a block header together.
pub const TOTAL_HEADER_SIZE: usize = MULTI_HEADER_SIZE + block::HEADER_SIZE;

/// Opening bytes of the statistics document: `{"version": `.
pub const DOCUMENT_MARKER: [u8; 12] = [0x7B, 0x22, 0x76, 0x65, 0x72, 0x73, 0x69, 0x6F, 0x6E, 0x22, 0x3A, 0x20];

/// The bytes from `offset` on.
pub open spec fn tail(data: Seq<u8>, offset: int) -> Seq<u8> {
    data.subrange(offset, data.len() as int)
}

/// A demo-info block whose header lies behind a frame header at `offset`,
/// with its whole body inside `data`.
pub open spec fn is_demoinfo_block(data: Seq<u8>, offset: int) -> bool {
    &&& 0 <= offset
    &&& offset + 10 <= data.len()
    &&& block_fits(tail(data, offset + 10))
    &&& spec_hidden_message(le_u16_at(tail(data, offset + 10), 4) as u16) == HiddenMessage::Demoinfo
    &&& offset + 18 + spec_block_body_size(tail(data, offset + 10)) <= data.len()
}

/// Body of the block behind the frame header at `offset`.
pub open spec fn block_body(data: Seq<u8>, offset: int) -> Seq<u8> {
    data.subrange(offset + 18, offset + 18 + spec_block_body_size(tail(data, offset + 10)))
}

/// Number of the block behind the frame header at `offset`.
pub open spec fn block_number(data: Seq<u8>, offset: int) -> int {
    le_u16_at(tail(data, offset + 10), 6)
}

/// The document pieced together from the chain of demo-info blocks that
/// starts at `offset`: bodies in the order met, up to and including the
/// block numbered zero.
pub open spec fn chain_content(data: Seq<u8>, offset: int) -> Seq<u8>
    decreases data.len() - offset,
{
    if is_demoinfo_block(data, offset) {
        if block_number(data, offset) == 0 {
            block_body(data, offset)
        } else {
            block_body(data, offset) + chain_content(
                data,
                offset + 18 + spec_block_body_size(tail(data, offset + 10)),
            )
        }
    } else {
        Seq::empty()
    }
}

/// The chain that starts at `offset` reaches a block numbered zero: every
/// block before it is a whole demo-info block.
pub open spec fn chain_complete(data: Seq<u8>, offset: int) -> bool
    decreases data.len() - offset,
{
    is_demoinfo_block(data, offset) && (block_number(data, offset) == 0 || chain_complete(
        data,
        offset + 18 + spec_block_body_size(tail(data, offset + 10)),
    ))
}

/// A chain ends at its block numbered zero: the content is that block's body
/// appended to what came before, and no byte after that block is read.
pub proof fn lemma_chain_stops_at_zero(data: Seq<u8>, other: Seq<u8>, offset: int)
    requires
        is_demoinfo_block(data, offset),
        block_number(data, offset) == 0,
        other.len() >= offset + 18 + spec_block_body_size(tail(data, offset + 10)),
        other.subrange(0, offset + 18 + spec_block_body_size(tail(data, offset + 10)))
            == data.subrange(0, offset + 18 + spec_block_body_size(tail(data, offset + 10))),
    ensures
        chain_content(data, offset) == block_body(data, offset),
        chain_content(other, offset) == chain_content(data, offset),
{
    let end = offset + 18 + spec_block_body_size(tail(data, offset + 10));
    assert forall|k: int| 0 <= k < end implies other[k] == data[k] by {
        assert(other.subrange(0, end)[k] == data.subrange(0, end)[k]);
    }
    assert(tail(other, offset + 10).subrange(0, 8) =~= tail(data, offset + 10).subrange(0, 8));
    assert(tail(other, offset + 10)[0] == tail(data, offset + 10)[0]);
    assert(tail(other, offset + 10)[1] == tail(data, offset + 10)[1]);
    assert(tail(other, offset + 10)[2] == tail(data, offset + 10)[2]);
    assert(tail(other, offset + 10)[3] == tail(data, offset + 10)[3]);
    assert(tail(other, offset + 10)[4] == tail(data, offset + 10)[4]);
    assert(tail(other, offset + 10)[5] == tail(data, offset + 10)[5]);
    assert(tail(other, offset + 10)[6] == tail(data, offset + 10)[6]);
    assert(tail(other, offset + 10)[7] == tail(data, offset + 10)[7]);
    assert(block_body(other, offset) =~= block_body(data, offset));
}

/// A chain that reaches its block numbered zero reads only bytes of `data`:
/// in any stream that begins with `data` it is complete too, with the same
/// content.
pub proof fn lemma_chain_prefix(data: Seq<u8>, other: Seq<u8>, offset: int)
    requires
        chain_complete(data, offset),
        data.len() <= other.len(),
        other.subrange(0, data.len() as int) == data,
    ensures
        chain_complete(other, offset),
        chain_content(other, offset) == chain_content(data, offset),
    decreases data.len() - offset,
{
    assert forall|k: int| 0 <= k < data.len() implies other[k] == data[k] by {
        assert(other.subrange(0, data.len() as int)[k] == data[k]);
    }
    let a = tail(data, offset + 10);
    let b = tail(other, offset + 10);
    assert(a[0] == b[0] && a[1] == b[1] && a[2] == b[2] && a[3] == b[3]);
    assert(a[4] == b[4] && a[5] == b[5] && a[6] == b[6] && a[7] == b[7]);
    assert(block_body(other, offset) =~= block_body(data, offset));
    if block_number(data, offset) != 0 {
        lemma_chain_prefix(data, other, offset + 18 + spec_block_body_size(a));
    }
}

/// Bytes appended after a stream whose document chain ends inside it, and
/// that hold no new occurrence of the opening marker, leave the document
/// unchanged: reassembly stops at the block numbered zero.
pub proof fn lemma_document_ignores_appended(data: Seq<u8>, t: Seq<u8>)
    requires
        last_occurrence(data, DOCUMENT_MARKER@) matches Some(i) && i >= 18 && chain_complete(
            data,
            i - 18,
        ),
        forall|j: int|
            #[trigger] occurs_at(data + t, DOCUMENT_MARKER@, j) ==> j + DOCUMENT_MARKER@.len()
                <= data.len(),
    ensures
        spec_document(data + t) == spec_document(data),
{
    let i = last_occurrence(data, DOCUMENT_MARKER@)->0;
    let m = DOCUMENT_MARKER@;
    let all = data + t;
    assert(is_last_occurrence(data, m, i)) by {
        assert(exists|j: int| is_last_occurrence(data, m, j));
    }
    assert(all.subrange(0, data.len() as int) =~= data);
    assert forall|j: int| 0 <= j && j + m.len() <= data.len() implies (occurs_at(all, m, j)
        <==> occurs_at(data, m, j)) by {
        assert(all.subrange(j, j + m.len()) =~= data.subrange(j, j + m.len()));
    }
    assert(is_last_occurrence(all, m, i));
    lemma_last_occurrence(all, m, i);
    lemma_chain_prefix(data, all, i - 18);
}

/// Concatenates the bodies of the chain of demo-info blocks that starts at
/// `offset`.
/// Also tells whether the chain reaches its block numbered zero.
pub fn read_block_chain(data: &[u8], offset: usize) -> (r: (Vec<u8>, bool))
    ensures
        r.0@ == chain_content(data@, offset as int),
        r.1 == chain_complete(data@, offset as int),
{
    let len = data.len();
    let mut pos = offset;
    let mut content: Vec<u8> = Vec::new();
    loop
        invariant
            len == data@.len(),
            chain_content(data@, offset as int) == content@ + chain_content(data@, pos as int),
            chain_complete(data@, offset as int) == chain_complete(data@, pos as int),
        decreases len - pos,
    {
        if pos > len || len - pos < MULTI_HEADER_SIZE {
            assert(content@ + chain_content(data@, pos as int) =~= content@);
            return (content, false);
        }
        let header = &data[pos + MULTI_HEADER_SIZE..len];
        assert(header@ == tail(data@, pos + 10));
        let info = match block::Info::try_from(header) {
            Ok(info) => info,
            Err(_) => {
                assert(content@ + chain_content(data@, pos as int) =~= content@);
                return (content, false);
            },
        };
        if info.hidden_message != HiddenMessage::Demoinfo || len - pos < TOTAL_HEADER_SIZE
            || len - pos - TOTAL_HEADER_SIZE < info.body_size {
            assert(content@ + chain_content(data@, pos as int) =~= content@);
            return (content, false);
        }
        let body_from = pos + TOTAL_HEADER_SIZE;
        let body = copy_range(data, body_from, body_from + info.body_size);
        assert(body@ == block_body(data@, pos as int));
        let ghost before = content@;
        content.extend_from_slice(body.as_slice());
        assert(content@ == before + block_body(data@, pos as int));
        if info.number == 0 {
            return (content, true);
        }
        assert(chain_content(data@, pos as int) == block_body(data@, pos as int) + chain_content(
            data@,
            body_from + info.body_size,
        ));
        assert(before + (block_body(data@, pos as int) + chain_content(data@, body_from + info.body_size))
            =~= content@ + chain_content(data@, body_from + info.body_size));
        pos = body_from + info.body_size;
    }
}

/// The statistics document of the stream, where its chain is found and is
/// valid UTF-8.
pub open spec fn spec_document(data: Seq<u8>) -> Option<Seq<char>> {
    match last_occurrence(data, DOCUMENT_MARKER@) {
        Some(i) => if i >= 18 && chain_complete(data, i - 18) && valid_utf8(chain_content(data, i - 18)) {
            Some(decode_utf8(chain_content(data, i - 18)))
        } else {
            None
        },
        None => None,
    }
}

/// The statistics document that the server splits over a chain of blocks
/// near the end of the stream, found by the last occurrence of its opening
/// bytes; absent (`KtxstatsNotFound`) where there is no such occurrence or
/// the chain breaks off before its block numbered zero.
pub fn ktxstats_string(data: &[u8]) -> (r: Result<String, Error>)
    ensures
        !occurs(data@, DOCUMENT_MARKER@) ==> r == Err::<String, Error>(Error::KtxstatsNotFound),
        forall|i: int|
            #[trigger] is_last_occurrence(data@, DOCUMENT_MARKER@, i) ==> {
                let content = chain_content(data@, i - 18);
                let complete = i >= 18 && chain_complete(data@, i - 18);
                &&& !complete ==> r == Err::<String, Error>(Error::KtxstatsNotFound)
                &&& complete && valid_utf8(content) ==> (r matches Ok(s) && s@ == decode_utf8(content))
                &&& complete && !valid_utf8(content) ==> r == Err::<String, Error>(Error::InvalidUtf8)
            },
        match spec_document(data@) {
            Some(d) => r matches Ok(s) && s@ == d,
            None => r is Err,
        },
{
    let marker = DOCUMENT_MARKER;
    let offset = match rfind(data, marker.as_slice()) {
        Some(i) => i,
        None => {
            proof {
                lemma_no_last_occurrence(data@, DOCUMENT_MARKER@);
            }
            return Err(Error::KtxstatsNotFound);
        },
    };
    proof {
        lemma_last_occurrence(data@, DOCUMENT_MARKER@, offset as int);
        assert forall|i: int| #[trigger] is_last_occurrence(data@, DOCUMENT_MARKER@, i) implies i
            == offset by {
            if i < offset {
                assert(!is_last_occurrence(data@, DOCUMENT_MARKER@, i));
            }
        }
    }
    if offset < TOTAL_HEADER_SIZE {
        return Err(Error::KtxstatsNotFound);
    }
    let (content, complete) = read_block_chain(data, offset - TOTAL_HEADER_SIZE);
    if !complete {
        return Err(Error::KtxstatsNotFound);
    }
    match utf8_string(content) {
        Some(s) => Ok(s),
        None => Err(Error::InvalidUtf8),
    }
}

/// Relies on `String::from_utf8`: success exactly on valid UTF-8, with the
/// characters it encodes.
#[verifier::external_body]
pub(crate) fn utf8_string(bytes: Vec<u8>) -> (r: Option<String>)
    ensures
        match r {
            Some(s) => valid_utf8(bytes@) && s@ == decode_utf8(bytes@),
            None => !valid_utf8(bytes@),
        },
{
    String::from_utf8(bytes).ok()
}

/// What `ktxstats::v3::KtxstatsV3::try_from` decodes from a statistics
/// document, as each player's name and frag count; `None` where it fails.
pub uninterp spec fn ktxstats_frags_of(s: Seq<char>) -> Option<Seq<(Seq<char>, i32)>>;

/// The frag counts of a decoded statistics document, as its players list them.
pub open spec fn frags_view(v: Seq<(String, i32)>) -> Seq<(Seq<char>, i32)> {
    Seq::new(v.len(), |i: int| (v[i].0@, v[i].1))
}

/// The decoded statistics document, as the `ktxstats` crate models it.
#[verifier::external_type_specification]
#[verifier::external_body]
pub struct ExKtxstatsV3(ktxstats::v3::KtxstatsV3);

/// Relies on `ktxstats::v3::KtxstatsV3::try_from(&str)`, which decodes the
/// JSON document: the decoded document, with each player's `name` and
/// `stats.frags` copied out, where it decodes.
#[verifier::external_body]
fn decode_ktxstats(s: &str) -> (r: Option<(ktxstats::v3::KtxstatsV3, Vec<(String, i32)>)>)
    ensures
        match ktxstats_frags_of(s@) {
            Some(f) => r matches Some(d) && frags_view(d.1@) == f,
            None => r is None,
        },
{
    let stats = ktxstats::v3::KtxstatsV3::try_from(s).ok()?;
    let frags = stats.players.iter().map(|p| (p.name.clone(), p.stats.frags)).collect();
    Some((stats, frags))
}

/// The frag counts of a statistics document, as its players list them.
pub fn ktxstats_frags(s: &str) -> (r: Option<Vec<(String, i32)>>)
    ensures
        match ktxstats_frags_of(s@) {
            Some(f) => r matches Some(v) && frags_view(v@) == f,
            None => r is None,
        },
{
    match decode_ktxstats(s) {
        Some((_, frags)) => Some(frags),
        None => None,
    }
}

/// The statistics document of the stream, decoded.
pub fn ktxstats_v3(data: &[u8]) -> (r: Result<ktxstats::v3::KtxstatsV3, Error>)
    ensures
        match spec_document(data@) {
            Some(d) => (r is Ok <==> ktxstats_frags_of(d) is Some) && (r is Err ==> r
                == Err::<ktxstats::v3::KtxstatsV3, Error>(Error::InvalidKtxstats)),
            None => r is Err,
        },
{
    let doc = ktxstats_string(data)?;
    match decode_ktxstats(doc.as_str()) {
        Some((stats, _)) => Ok(stats),
        None => Err(Error::InvalidKtxstats),
    }
}

} // verus!
