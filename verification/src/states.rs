use vstd::prelude::*;
use crate::error::DmiError;
use crate::png_io::chunk_text;
use crate::png_io::chunk_text_of;
use crate::png_io::chunk_text_ok;
use crate::png_io::png_chunks_of;
use crate::png_io::png_header_ok;
use crate::png_io::read_text_chunks;
use crate::textscan::states_in_text;
use crate::textscan::states_of_text;

verus! {

/// Every chunk's payload inflates to text.
pub open spec fn chunks_all_ok(cs: Seq<png::text_metadata::ZTXtChunk>) -> bool {
    forall|k: int| 0 <= k < cs.len() ==> chunk_text_ok(#[trigger] cs[k])
}

/// The state names of a list of chunks: each chunk's text scanned up to its
/// sentinel, chunks in storage order, names in file order.
pub open spec fn states_of_chunks(cs: Seq<png::text_metadata::ZTXtChunk>) -> Seq<Seq<char>>
    decreases cs.len(),
{
    if cs.len() == 0 {
        Seq::empty()
    } else {
        states_of_chunks(cs.drop_last()) + states_of_text(chunk_text_of(cs.last()))
    }
}

/// Collects the state names of every chunk, in order; the first chunk whose
/// payload does not inflate fails the whole read.
pub fn states_from_chunks(chunks: &Vec<png::text_metadata::ZTXtChunk>) -> (r: Result<
    Vec<String>,
    DmiError,
>)
    ensures
        r is Ok <==> chunks_all_ok(chunks@),
        r matches Ok(v) ==> v.deep_view() == states_of_chunks(chunks@),
        r matches Err(e) ==> e is TextDecode,
{
    let n = chunks.len();
    let mut states: Vec<String> = Vec::new();
    let mut i: usize = 0;
    proof {
        assert(chunks@.take(0) =~= Seq::<png::text_metadata::ZTXtChunk>::empty());
        assert(states.deep_view() =~= states_of_chunks(chunks@.take(0)));
    }
    while i < n
        invariant
            0 <= i <= n,
            n == chunks@.len(),
            forall|k: int| 0 <= k < i ==> chunk_text_ok(#[trigger] chunks@[k]),
            states.deep_view() == states_of_chunks(chunks@.take(i as int)),
        decreases n - i,
    {
        let text = match chunk_text(&chunks[i]) {
            Err(e) => {
                proof {
                    assert(!chunk_text_ok(chunks@[i as int]));
                }
                return Err(e);
            },
            Ok(t) => t,
        };
        let ghost before = states.deep_view();
        let mut part = states_in_text(text.as_str());
        let ghost part_states = part.deep_view();
        states.append(&mut part);
        proof {
            assert(states.deep_view() =~= before + part_states);
            assert(chunks@.take(i + 1).drop_last() =~= chunks@.take(i as int));
            assert(chunks@.take(i + 1).last() == chunks@[i as int]);
            assert(part_states == states_of_text(chunk_text_of(chunks@[i as int])));
        }
        i += 1;
    }
    proof {
        assert(chunks@.take(n as int) =~= chunks@);
    }
    Ok(states)
}

/// What `serde_json::to_string` prints for a list of strings.
pub uninterp spec fn json_of(items: Seq<Seq<char>>) -> Seq<char>;

/// The two characters the empty array prints as.
pub open spec fn empty_json() -> Seq<char> {
    seq!['[', ']']
}

/// Relies on serde_json::to_string on a Vec<String>: the output is the JSON
/// array of the strings, a function of the list alone. It never fails on
/// this type — the writer is an in-memory buffer and string serialization
/// raises no error — so the call is promised to succeed.
#[verifier::external_body]
fn to_json(states: &Vec<String>) -> (r: Result<String, DmiError>)
    ensures
        r is Ok,
        r matches Ok(j) ==> j@ == json_of(states.deep_view()),
        r matches Ok(j) ==> (states.deep_view().len() == 0 ==> j@ == empty_json()),
{
    serde_json::to_string(states).map_err(|e| DmiError::Serialization(format!("{e}")))
}

/// Serializes the state names of the given chunks as a JSON array of
/// strings: it succeeds exactly when every chunk inflates, and a file
/// without text chunks yields exactly `[]`.
pub fn states_json(chunks: &Vec<png::text_metadata::ZTXtChunk>) -> (r: Result<String, DmiError>)
    ensures
        r is Ok <==> chunks_all_ok(chunks@),
        r matches Ok(j) ==> j@ == json_of(states_of_chunks(chunks@)),
        chunks@.len() == 0 ==> (r matches Ok(j) && j@ == empty_json()),
        r matches Err(e) ==> e is TextDecode,
{
    let states = match states_from_chunks(chunks) {
        Err(e) => {
            return Err(e);
        },
        Ok(v) => v,
    };
    proof {
        if chunks@.len() == 0 {
            assert(states.deep_view().len() == 0);
            assert(states@.len() == 0);
        }
    }
    to_json(&states)
}

/// Reads the icon states of a DMI file: the text chunks that stand before
/// the image data are scanned in storage order, and the ordered names come
/// back as a JSON array of strings. It succeeds exactly when the header
/// chunks parse and every text chunk inflates; a failure is reported, never
/// swallowed here. A file without text chunks yields exactly `[]`.
pub fn read_states(data: &[u8]) -> (r: Result<String, DmiError>)
    ensures
        r is Ok <==> png_header_ok(data@) && chunks_all_ok(png_chunks_of(data@)),
        r matches Ok(j) ==> j@ == json_of(states_of_chunks(png_chunks_of(data@))),
        png_header_ok(data@) && png_chunks_of(data@).len() == 0 ==> (r matches Ok(j) && j@
            == empty_json()),
        !png_header_ok(data@) ==> (r matches Err(e) && e is Decode),
        r matches Err(e) ==> (e is Decode || e is TextDecode),
{
    match read_text_chunks(data) {
        Err(e) => Err(e),
        Ok(chunks) => states_json(&chunks),
    }
}

} // verus!
