//! The source acquirer, direct-fetch strategy: from the answer to a blob
//! request to the text of a source file. The hosting API hands a file out as
//! base64 that is wrapped at a fixed width; the line breaks go, the rest is
//! decoded by `base64`, and the bytes are read as UTF-8, with U+FFFD in place
//! of what is not UTF-8.

use crate::json::{
    json_parse, json_tree, parse_value, read_required_text, read_required_u64, required_text,
    required_u64, JsonTree,
};
use crate::text::{chars_of, drop_newlines, pair_views, string_of, without_newlines};
use vstd::prelude::*;
use vstd::utf8::{decode_utf8, valid_utf8};

verus! {

/// `base64::DecodeError`, why a text is no base64.
#[verifier::external_type_specification]
#[verifier::external_body]
pub struct ExBase64Error(base64::DecodeError);

/// What the standard base64 engine of `base64` decodes a text to: the
/// standard alphabet, with padding required. `None` where the text is not
/// such base64.
pub uninterp spec fn base64_decoded(text: Seq<char>) -> Option<Seq<u8>>;

/// What `String::from_utf8_lossy` reads bytes as.
pub uninterp spec fn utf8_lossy_text(bytes: Seq<u8>) -> Seq<char>;

/// `Engine::decode` of `base64::engine::general_purpose::STANDARD`. The
/// bytes returned are `base64_decoded` of the text; the call fails exactly
/// where that is `None`.
#[verifier::external_body]
pub(crate) fn base64_decode(text: &str) -> (decoded: Result<Vec<u8>, base64::DecodeError>)
    ensures
        match decoded {
            Ok(bytes) => base64_decoded(text@) == Some(bytes@),
            Err(_) => base64_decoded(text@) is None,
        },
{
    base64::Engine::decode(&base64::engine::general_purpose::STANDARD, text)
}

/// `String::from_utf8_lossy`: the text is `utf8_lossy_text` of the bytes,
/// which for bytes that are UTF-8 is the string that they encode.
#[verifier::external_body]
pub(crate) fn utf8_lossy(bytes: &Vec<u8>) -> (text: String)
    ensures
        text@ == utf8_lossy_text(bytes@),
        valid_utf8(bytes@) ==> text@ == decode_utf8(bytes@),
{
    String::from_utf8_lossy(bytes).into_owned()
}

/// Why a source file could not be acquired.
#[derive(Clone, Copy, Debug, PartialEq, Eq, Structural)]
pub enum AcquireError {
    /// The answer to the blob request is no blob.
    MalformedBlob,
    /// The content of the blob is no base64.
    InvalidBase64,
}

/// The answer to a blob request.
#[derive(Debug)]
pub struct BlobFile {
    pub content: String,
    pub encoding: String,
    pub sha: String,
    pub size: u64,
    pub url: String,
}

/// The model of `BlobFile`.
pub struct BlobView {
    pub content: Seq<char>,
    pub encoding: Seq<char>,
    pub sha: Seq<char>,
    pub size: u64,
    pub url: Seq<char>,
}

impl View for BlobFile {
    type V = BlobView;

    open spec fn view(&self) -> BlobView {
        BlobView {
            content: self.content@,
            encoding: self.encoding@,
            sha: self.sha@,
            size: self.size,
            url: self.url@,
        }
    }
}

/// One acquired source file: the name under which the compiler will know
/// it, the payload as it came, and the text decoded from it. A unit is made
/// by this module and read through its methods, so the text of a unit never
/// changes.
#[derive(Debug)]
pub struct SourceUnit {
    filename: String,
    raw: String,
    text: String,
}

/// The model of `SourceUnit`.
pub struct SourceUnitView {
    pub filename: Seq<char>,
    pub raw: Seq<char>,
    pub text: Seq<char>,
}

impl View for SourceUnit {
    type V = SourceUnitView;

    closed spec fn view(&self) -> SourceUnitView {
        SourceUnitView { filename: self.filename@, raw: self.raw@, text: self.text@ }
    }
}

impl SourceUnit {
    /// The name of the file.
    pub fn filename(&self) -> (name: &str)
        ensures
            name@ == self@.filename,
    {
        self.filename.as_str()
    }

    /// The payload as it came.
    pub fn raw(&self) -> (raw: &str)
        ensures
            raw@ == self@.raw,
    {
        self.raw.as_str()
    }

    /// The decoded text.
    pub fn text(&self) -> (text: &str)
        ensures
            text@ == self@.text,
    {
        self.text.as_str()
    }
}

/// The blob that a JSON value describes: `content`, `encoding`, `sha` and
/// `url` must be there as strings, and `size` as a non-negative integer.
pub open spec fn blob_of(tree: JsonTree) -> Option<BlobView> {
    if required_text(tree, "content"@) is Some && required_text(tree, "encoding"@) is Some
        && required_text(tree, "sha"@) is Some && required_u64(tree, "size"@) is Some
        && required_text(tree, "url"@) is Some {
        Some(
            BlobView {
                content: required_text(tree, "content"@).unwrap(),
                encoding: required_text(tree, "encoding"@).unwrap(),
                sha: required_text(tree, "sha"@).unwrap(),
                size: required_u64(tree, "size"@).unwrap(),
                url: required_text(tree, "url"@).unwrap(),
            },
        )
    } else {
        None
    }
}

/// The bytes that a payload encodes, its line breaks set aside.
pub open spec fn decoded_bytes(raw: Seq<char>) -> Option<Seq<u8>> {
    base64_decoded(without_newlines(raw))
}

/// The unit made of a payload and the bytes decoded from it.
pub open spec fn unit_with(filename: Seq<char>, raw: Seq<char>, bytes: Seq<u8>) -> SourceUnitView {
    SourceUnitView { filename, raw, text: utf8_lossy_text(bytes) }
}

/// The unit that a payload gives. Bytes that are not UTF-8 do not fail:
/// only a payload that is no base64 does.
pub open spec fn unit_of(filename: Seq<char>, raw: Seq<char>) -> Result<
    SourceUnitView,
    AcquireError,
> {
    match decoded_bytes(raw) {
        Some(bytes) => Ok(unit_with(filename, raw, bytes)),
        None => Err(AcquireError::InvalidBase64),
    }
}

/// The blob that the body of a blob answer holds.
pub open spec fn blob_in(body: Seq<char>) -> Option<BlobView> {
    match json_parse(body) {
        Some(document) => blob_of(document),
        None => None,
    }
}

/// The unit that the body of a blob answer gives.
pub open spec fn acquired(filename: Seq<char>, body: Seq<char>) -> Result<
    SourceUnitView,
    AcquireError,
> {
    match blob_in(body) {
        Some(blob) => unit_of(filename, blob.content),
        None => Err(AcquireError::MalformedBlob),
    }
}

/// The models of a sequence of units.
pub open spec fn unit_views(units: Seq<SourceUnit>) -> Seq<SourceUnitView> {
    units.map_values(|unit: SourceUnit| unit@)
}

/// The unit that the answer to the blob request for one file gives, where
/// it gives one. The answer is the name of the file and the body.
pub open spec fn unit_in(answer: (Seq<char>, Seq<char>)) -> Option<SourceUnitView> {
    match acquired(answer.0, answer.1) {
        Ok(unit) => Some(unit),
        Err(_) => None,
    }
}

/// The compile set that the answers for the files of a contest give: a unit
/// for each answer that gives one, in the order of the answers. An answer
/// that cannot be decoded takes its file out of the set and nothing else.
pub open spec fn compile_set(answers: Seq<(Seq<char>, Seq<char>)>) -> Seq<SourceUnitView> {
    answers.filter_map(|answer: (Seq<char>, Seq<char>)| unit_in(answer))
}

/// Is the text of the unit the string that its payload encodes, where the
/// payload encodes UTF-8?
pub open spec fn reads_utf8(unit: SourceUnitView) -> bool {
    decoded_bytes(unit.raw) matches Some(bytes) ==> (valid_utf8(bytes) ==> unit.text
        == decode_utf8(bytes))
}

/// Does the unit stand for this result, or is the error the result's?
pub open spec fn is_unit(
    found: Result<SourceUnit, AcquireError>,
    unit: Result<SourceUnitView, AcquireError>,
) -> bool {
    match found {
        Ok(source) => unit == Ok::<SourceUnitView, AcquireError>(source@),
        Err(error) => unit == Err::<SourceUnitView, AcquireError>(error),
    }
}

/// A text broken into lines of `width` characters: a line feed after each
/// full line that something follows.
pub open spec fn wrapped(text: Seq<char>, width: nat) -> Seq<char>
    decreases text.len(),
{
    if width == 0 || text.len() <= width {
        text
    } else {
        text.take(width as int) + seq!['\n'] + wrapped(text.skip(width as int), width)
    }
}

/// A text without line feeds is left as it is.
pub proof fn lemma_without_newlines_keeps(text: Seq<char>)
    requires
        !text.contains('\n'),
    ensures
        without_newlines(text) == text,
    decreases text.len(),
{
    reveal(Seq::filter);
    if text.len() > 0 {
        let rest = text.drop_last();
        assert forall|i: int| 0 <= i < rest.len() implies rest[i] != '\n' by {
            assert(text[i] == rest[i]);
            assert(text.contains(text[i]));
        }
        assert(!rest.contains('\n'));
        lemma_without_newlines_keeps(rest);
        assert(text.contains(text.last()));
        assert(text =~= rest.push(text.last()));
    }
}

/// The line feeds between two texts, and in them, leave no trace.
pub proof fn lemma_without_newlines_joins(before: Seq<char>, after: Seq<char>)
    ensures
        without_newlines(before + after) == without_newlines(before) + without_newlines(after),
        without_newlines(before + seq!['\n'] + after) == without_newlines(before)
            + without_newlines(after),
{
    let keep = |c: char| c != '\n';
    Seq::filter_distributes_over_add(before, after, keep);
    Seq::filter_distributes_over_add(before, seq!['\n'], keep);
    Seq::filter_distributes_over_add(before + seq!['\n'], after, keep);
    assert(seq!['\n'].filter(keep) =~= Seq::<char>::empty()) by {
        reveal_with_fuel(Seq::filter, 2);
        assert(seq!['\n'].drop_last() =~= Seq::<char>::empty());
    }
    assert(without_newlines(before) + Seq::<char>::empty() =~= without_newlines(before));
}

/// Wrapping a text that holds no line feed, at any width, is undone by
/// setting the line feeds aside: the payload decodes as if it had never been
/// wrapped.
pub proof fn lemma_wrapping_is_undone(text: Seq<char>, width: nat)
    requires
        !text.contains('\n'),
    ensures
        without_newlines(wrapped(text, width)) == text,
        decoded_bytes(wrapped(text, width)) == base64_decoded(text),
    decreases text.len(),
{
    if width == 0 || text.len() <= width {
        lemma_without_newlines_keeps(text);
    } else {
        let head = text.take(width as int);
        let tail = text.skip(width as int);
        assert forall|i: int| 0 <= i < head.len() implies head[i] != '\n' by {
            assert(text.contains(text[i]));
        }
        assert forall|i: int| 0 <= i < tail.len() implies tail[i] != '\n' by {
            assert(text.contains(text[i + width]));
        }
        lemma_without_newlines_keeps(head);
        lemma_wrapping_is_undone(tail, width);
        lemma_without_newlines_joins(head, wrapped(tail, width));
        assert(head + tail =~= text);
    }
}

/// A payload without its line breaks.
pub fn strip_newlines(raw: &str) -> (joined: String)
    ensures
        joined@ == without_newlines(raw@),
{
    string_of(&drop_newlines(&chars_of(raw)))
}

/// The bytes that a payload encodes.
pub fn decode_payload(raw: &str) -> (decoded: Result<Vec<u8>, AcquireError>)
    ensures
        match decoded {
            Ok(bytes) => decoded_bytes(raw@) == Some(bytes@),
            Err(error) => decoded_bytes(raw@) is None && error == AcquireError::InvalidBase64,
        },
{
    let joined = strip_newlines(raw);
    match base64_decode(joined.as_str()) {
        Ok(bytes) => Ok(bytes),
        Err(_) => Err(AcquireError::InvalidBase64),
    }
}

/// The unit made of a payload and the bytes decoded from it. Where the
/// bytes are UTF-8, the text of the unit is the string that they encode.
pub fn unit_from_bytes(filename: &str, raw: &str, bytes: &Vec<u8>) -> (unit: SourceUnit)
    ensures
        unit@ == unit_with(filename@, raw@, bytes@),
        valid_utf8(bytes@) ==> unit@.text == decode_utf8(bytes@),
{
    SourceUnit { filename: filename.to_owned(), raw: raw.to_owned(), text: utf8_lossy(bytes) }
}

/// The unit that a payload gives. A payload that encodes UTF-8 gives the
/// text that it encodes.
pub fn source_unit(filename: &str, raw: &str) -> (found: Result<SourceUnit, AcquireError>)
    ensures
        is_unit(found, unit_of(filename@, raw@)),
        decoded_bytes(raw@) matches Some(bytes) ==> (valid_utf8(bytes) ==> (found matches Ok(
            unit,
        ) && unit@.text == decode_utf8(bytes))),
        found matches Ok(unit) ==> reads_utf8(unit@),
{
    match decode_payload(raw) {
        Ok(bytes) => Ok(unit_from_bytes(filename, raw, &bytes)),
        Err(error) => Err(error),
    }
}

/// Reads a blob from a JSON value.
pub fn read_blob(value: &serde_json::Value) -> (blob: Option<BlobFile>)
    ensures
        match blob {
            Some(blob) => blob_of(json_tree(*value)) == Some(blob@),
            None => blob_of(json_tree(*value)) is None,
        },
{
    let content = match read_required_text(value, "content") {
        Some(text) => text,
        None => return None,
    };
    let encoding = match read_required_text(value, "encoding") {
        Some(text) => text,
        None => return None,
    };
    let sha = match read_required_text(value, "sha") {
        Some(text) => text,
        None => return None,
    };
    let size = match read_required_u64(value, "size") {
        Some(size) => size,
        None => return None,
    };
    let url = match read_required_text(value, "url") {
        Some(text) => text,
        None => return None,
    };
    Some(BlobFile { content, encoding, sha, size, url })
}

/// The blob that the body of a blob answer holds.
pub fn clone_contract(body: &str) -> (found: Result<BlobFile, AcquireError>)
    ensures
        match found {
            Ok(blob) => blob_in(body@) == Some(blob@),
            Err(error) => blob_in(body@) is None && error == AcquireError::MalformedBlob,
        },
{
    match parse_value(body) {
        Ok(document) => match read_blob(&document) {
            Some(blob) => Ok(blob),
            None => Err(AcquireError::MalformedBlob),
        },
        Err(_) => Err(AcquireError::MalformedBlob),
    }
}

/// The unit that the body of a blob answer gives. A blob whose content
/// encodes UTF-8 gives the text that it encodes.
pub fn acquire(filename: &str, body: &str) -> (found: Result<SourceUnit, AcquireError>)
    ensures
        is_unit(found, acquired(filename@, body@)),
        blob_in(body@) matches Some(blob) ==> (decoded_bytes(blob.content) matches Some(bytes)
            ==> (valid_utf8(bytes) ==> (found matches Ok(unit) && unit@.text == decode_utf8(
            bytes,
        )))),
        found matches Ok(unit) ==> reads_utf8(unit@),
{
    match clone_contract(body) {
        Ok(blob) => source_unit(filename, blob.content.as_str()),
        Err(error) => Err(error),
    }
}

/// The compile set of a contest, from the answers to the blob requests for
/// its files, each with the name of its file. Each unit whose payload
/// encodes UTF-8 holds the text that it encodes.
pub fn acquire_each(answers: &Vec<(String, String)>) -> (units: Vec<SourceUnit>)
    ensures
        unit_views(units@) == compile_set(pair_views(answers@)),
        forall|i: int| 0 <= i < units@.len() ==> reads_utf8(#[trigger] units@[i]@),
{
    let ghost all = pair_views(answers@);
    let ghost pick = |answer: (Seq<char>, Seq<char>)| unit_in(answer);
    let mut units: Vec<SourceUnit> = Vec::new();
    let mut i: usize = 0;
    proof {
        assert(all.take(0).filter_map(pick) =~= Seq::<SourceUnitView>::empty());
        assert(unit_views(units@) =~= Seq::<SourceUnitView>::empty());
    }
    while i < answers.len()
        invariant
            i <= answers.len(),
            all == pair_views(answers@),
            pick == (|answer: (Seq<char>, Seq<char>)| unit_in(answer)),
            unit_views(units@) == all.take(i as int).filter_map(pick),
            forall|j: int| 0 <= j < units@.len() ==> reads_utf8(#[trigger] units@[j]@),
        decreases answers.len() - i,
    {
        let ghost before = unit_views(units@);
        proof {
            all.lemma_filter_map_take_succ(pick, i as int);
        }
        match acquire(answers[i].0.as_str(), answers[i].1.as_str()) {
            Ok(unit) => {
                let ghost view = unit@;
                units.push(unit);
                proof {
                    assert(unit_views(units@) =~= before.push(view));
                }
            },
            Err(_) => {},
        }
        i += 1;
    }
    proof {
        assert(all.take(answers@.len() as int) =~= all);
    }
    units
}

} // verus!
