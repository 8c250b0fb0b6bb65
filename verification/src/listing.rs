//! The listing extractor: from the text of a listing page to the contest
//! records that it carries.
//!
//! The page embeds its data in a `<script>` block as a call
//! `self.__next_f.push([1,"f:[\"$\",\"div\",null,{..}]\n"])`, the JSON
//! document `{..}` standing inside a string literal with escaped quotes. The
//! records are reached at `.children[3].children[3].contests` of that
//! document. These offsets belong to one rendering of the page and are the
//! fragile part of the format: a page of another shape is reported as
//! `ListingError::UnexpectedShape`, never read as an empty listing.

use crate::contest::{
    contest_views, contests_of, filter_active, filter_eligible, read_contests, ContestRecord,
    ContestView,
};
use crate::instant::Instant;
use crate::json::{
    json_parse, json_tree, json_trees, parse_value, read_element, value_as_array, value_member,
    JsonTree,
};
use crate::text::{
    chars_of, leading_end, matches_at, replace_all, replace_range, string_of, strip_leading,
    strip_trailing, texts_view, trailing_start,
};
use vstd::prelude::*;

verus! {

/// The function whose call carries the data.
pub const PUSH_CALL: &'static str = "self.__next_f.push";

/// How the argument list of the call that carries the listing begins.
pub const CARRIER_MARK: &'static str = "([1,\"f:";

/// What stands before the JSON document in the carrier.
pub const FRAME_HEAD: &'static str = "([1,\"f:[\\\"$\\\",\\\"div\\\",null,";

/// What stands after the JSON document in the carrier.
pub const FRAME_TAIL: &'static str = "]\\n\"])";

/// A quotation mark as the carrier writes it.
pub const ESCAPED_QUOTE: &'static str = "\\\"";

/// A quotation mark.
pub const QUOTE: &'static str = "\"";

/// The element that holds the data.
pub const SCRIPT: &'static str = "script";

/// Why a page gave no listing.
#[derive(Clone, Copy, Debug, PartialEq, Eq, Structural)]
pub enum ListingError {
    /// No script block of the page is a carrier.
    NoPayload,
    /// The carrier does not hold a JSON document.
    NotJson,
    /// The document has no array at `.children[3].children[3].contests`.
    UnexpectedShape,
}

/// `scraper::Selector::parse`, `scraper::Html::parse_document`,
/// `Html::select` and `ElementRef::inner_html` of each element selected: the
/// inner HTML of the elements of the page that match the CSS selector, or
/// `None` where the selector does not parse. Nothing is claimed of what
/// comes back. `scraper` keeps the attributes of an element in a hash map
/// that is seeded anew in each process, and writes them out in the order of
/// that map, so one page may give different strings in two calls.
#[verifier::external_body]
pub(crate) fn select_inner_html(page: &str, selector: &str) -> (selected: Option<Vec<String>>) {
    let selector = scraper::Selector::parse(selector).ok()?;
    let document = scraper::Html::parse_document(page);
    Some(document.select(&selector).map(|element| element.inner_html()).collect())
}

/// A script block without the name of the push function before it.
pub open spec fn pushed(block: Seq<char>) -> Seq<char> {
    strip_leading(block, PUSH_CALL@)
}

/// Is the block the carrier of a listing?
pub open spec fn is_carrier(block: Seq<char>) -> bool {
    CARRIER_MARK@.is_prefix_of(pushed(block))
}

/// The text that a carrier holds: the block without the push function, the
/// frame before and the frame after, and with its quotation marks unescaped.
pub open spec fn unframed(block: Seq<char>) -> Seq<char> {
    replace_all(
        strip_trailing(strip_leading(pushed(block), FRAME_HEAD@), FRAME_TAIL@),
        ESCAPED_QUOTE@,
        QUOTE@,
    )
}

/// The payload of a page: the text held by the last of its script blocks
/// that is a carrier.
pub open spec fn payload_of(blocks: Seq<Seq<char>>) -> Option<Seq<char>>
    decreases blocks.len(),
{
    if blocks.len() == 0 {
        None
    } else if is_carrier(blocks.last()) {
        Some(unframed(blocks.last()))
    } else {
        payload_of(blocks.drop_last())
    }
}

/// The member `key` of a node that was reached.
pub open spec fn down(node: Option<JsonTree>, key: Seq<char>) -> Option<JsonTree> {
    match node {
        Some(node) => node.member(key),
        None => None,
    }
}

/// The element `i` of a node that was reached.
pub open spec fn pick(node: Option<JsonTree>, i: int) -> Option<JsonTree> {
    match node {
        Some(node) => node.element(i),
        None => None,
    }
}

/// The array of contests in a payload document: the elements of
/// `.children[3].children[3].contests`, or `None` where the document has no
/// array there.
pub open spec fn contest_array(document: JsonTree) -> Option<Seq<JsonTree>> {
    let outer = pick(down(Some(document), "children"@), 3);
    let inner = pick(down(outer, "children"@), 3);
    match down(inner, "contests"@) {
        Some(node) => node.items(),
        None => None,
    }
}

/// The listing in a payload document.
pub open spec fn listing_in(document: JsonTree) -> Result<Seq<ContestView>, ListingError> {
    match contest_array(document) {
        Some(items) => Ok(contests_of(items)),
        None => Err(ListingError::UnexpectedShape),
    }
}

/// The listing that a payload text holds.
pub open spec fn listing_of_payload(payload: Seq<char>) -> Result<Seq<ContestView>, ListingError> {
    match json_parse(payload) {
        Some(document) => listing_in(document),
        None => Err(ListingError::NotJson),
    }
}

/// The listing that the script blocks of a page hold.
pub open spec fn listing_of_blocks(blocks: Seq<Seq<char>>) -> Result<
    Seq<ContestView>,
    ListingError,
> {
    match payload_of(blocks) {
        Some(payload) => listing_of_payload(payload),
        None => Err(ListingError::NoPayload),
    }
}

/// What a filter leaves of a listing.
pub open spec fn filtered(
    listing: Result<Seq<ContestView>, ListingError>,
    keep: spec_fn(ContestView) -> bool,
) -> Result<Seq<ContestView>, ListingError> {
    match listing {
        Ok(records) => Ok(records.filter(keep)),
        Err(error) => Err(error),
    }
}

/// Is `found` the listing that some sequence of script blocks holds? This
/// is what can be said of a listing that was read off a page: the blocks are
/// those that the HTML parser handed out, and a contract cannot say which
/// they are.
pub open spec fn is_listing_of_some_blocks(
    found: Result<Vec<ContestRecord>, ListingError>,
) -> bool {
    exists|blocks: Seq<Seq<char>>| is_listing(found, #[trigger] listing_of_blocks(blocks))
}

/// Is `found` what `keep` leaves of the listing that some sequence of
/// script blocks holds?
pub open spec fn is_filtered_listing_of_some_blocks(
    found: Result<Vec<ContestRecord>, ListingError>,
    keep: spec_fn(ContestView) -> bool,
) -> bool {
    exists|blocks: Seq<Seq<char>>|
        is_listing(found, filtered(#[trigger] listing_of_blocks(blocks), keep))
}

/// Do the records make up this listing, or is the error the listing's?
pub open spec fn is_listing(
    found: Result<Vec<ContestRecord>, ListingError>,
    listing: Result<Seq<ContestView>, ListingError>,
) -> bool {
    match found {
        Ok(records) => listing == Ok::<Seq<ContestView>, ListingError>(contest_views(records@)),
        Err(error) => listing == Err::<Seq<ContestView>, ListingError>(error),
    }
}

/// The payload comes from the last carrier among the blocks: a carrier
/// after which no block is a carrier. Blocks without a carrier have no
/// payload.
pub proof fn lemma_payload_is_of_last_carrier(blocks: Seq<Seq<char>>)
    ensures
        match payload_of(blocks) {
            Some(payload) => exists|i: int|
                0 <= i < blocks.len() && is_carrier(#[trigger] blocks[i]) && payload == unframed(
                    blocks[i],
                ) && forall|j: int| i < j < blocks.len() ==> !is_carrier(#[trigger] blocks[j]),
            None => forall|i: int| 0 <= i < blocks.len() ==> !is_carrier(#[trigger] blocks[i]),
        },
    decreases blocks.len(),
{
    if blocks.len() > 0 {
        let rest = blocks.drop_last();
        if is_carrier(blocks.last()) {
            let i = blocks.len() - 1;
            assert(is_carrier(blocks[i]) && payload_of(blocks) == Some(unframed(blocks[i])));
        } else {
            lemma_payload_is_of_last_carrier(rest);
            match payload_of(rest) {
                Some(payload) => {
                    let i = choose|i: int|
                        0 <= i < rest.len() && is_carrier(#[trigger] rest[i]) && payload
                            == unframed(rest[i]) && forall|j: int|
                            i < j < rest.len() ==> !is_carrier(#[trigger] rest[j]);
                    assert(rest[i] == blocks[i]);
                    assert forall|j: int| i < j < blocks.len() implies !is_carrier(
                        #[trigger] blocks[j],
                    ) by {
                        if j < rest.len() {
                            assert(rest[j] == blocks[j]);
                        }
                    }
                    assert(is_carrier(blocks[i]) && payload == unframed(blocks[i]));
                },
                None => {
                    assert forall|i: int| 0 <= i < blocks.len() implies !is_carrier(
                        #[trigger] blocks[i],
                    ) by {
                        if i < rest.len() {
                            assert(rest[i] == blocks[i]);
                        }
                    }
                },
            }
        }
    }
}

/// The script blocks of a page: the inner HTML of each of its `script`
/// elements, as the HTML parser hands them out. Which blocks a page has is
/// the parser's to say; what the library makes of them is stated on
/// `find_payload` and `listing_from_blocks`, which take them as an argument.
pub fn script_blocks(page: &str) -> (blocks: Vec<String>) {
    match select_inner_html(page, SCRIPT) {
        Some(blocks) => blocks,
        None => Vec::new(),
    }
}

/// The text that a script block holds, where the block is a carrier.
pub fn unframe(block: &str) -> (payload: Option<String>)
    ensures
        payload.deep_view() == if is_carrier(block@) {
            Some(unframed(block@))
        } else {
            None
        },
{
    let chars = chars_of(block);
    let push_call = chars_of(PUSH_CALL);
    let mark = chars_of(CARRIER_MARK);
    let after_call = leading_end(&chars, 0, &push_call);
    proof {
        assert(chars@.skip(0) =~= chars@);
    }
    if !matches_at(&chars, after_call, &mark) {
        return None;
    }
    let head = chars_of(FRAME_HEAD);
    let tail = chars_of(FRAME_TAIL);
    let escaped = chars_of(ESCAPED_QUOTE);
    let quote = chars_of(QUOTE);
    let from = leading_end(&chars, after_call, &head);
    let to = trailing_start(&chars, from, &tail);
    let text = replace_range(&chars, from, to, &escaped, &quote);
    Some(string_of(&text))
}

/// The payload of a page, given its script blocks: the text held by the
/// last block that is a carrier.
pub fn find_payload(blocks: &Vec<String>) -> (payload: Option<String>)
    ensures
        payload.deep_view() == payload_of(texts_view(blocks@)),
{
    let ghost all = texts_view(blocks@);
    let mut payload: Option<String> = None;
    let mut i: usize = 0;
    proof {
        assert(all.take(0) =~= Seq::<Seq<char>>::empty());
    }
    while i < blocks.len()
        invariant
            i <= blocks.len(),
            all == texts_view(blocks@),
            payload.deep_view() == payload_of(all.take(i as int)),
        decreases blocks.len() - i,
    {
        proof {
            assert(all.take(i + 1).drop_last() =~= all.take(i as int));
            assert(all.take(i + 1).last() == blocks@[i as int]@);
        }
        match unframe(blocks[i].as_str()) {
            Some(text) => {
                payload = Some(text);
            },
            None => {},
        }
        i += 1;
    }
    proof {
        assert(all.take(blocks@.len() as int) =~= all);
    }
    payload
}

/// The array of contests in a payload document.
pub fn locate_contests(document: &serde_json::Value) -> (found: Option<&Vec<serde_json::Value>>)
    ensures
        match found {
            Some(items) => contest_array(json_tree(*document)) == Some(json_trees(items@)),
            None => contest_array(json_tree(*document)) is None,
        },
{
    let outer = match value_member(document, "children") {
        Some(node) => node,
        None => return None,
    };
    let outer_slot = match read_element(outer, 3) {
        Some(node) => node,
        None => return None,
    };
    let inner = match value_member(outer_slot, "children") {
        Some(node) => node,
        None => return None,
    };
    let inner_slot = match read_element(inner, 3) {
        Some(node) => node,
        None => return None,
    };
    let contests = match value_member(inner_slot, "contests") {
        Some(node) => node,
        None => return None,
    };
    value_as_array(contests)
}

/// The listing in a payload document: every element of the contest array
/// that is shaped like a contest, in order.
pub fn listing_in_document(document: &serde_json::Value) -> (found: Result<
    Vec<ContestRecord>,
    ListingError,
>)
    ensures
        is_listing(found, listing_in(json_tree(*document))),
{
    match locate_contests(document) {
        Some(items) => Ok(read_contests(items)),
        None => Err(ListingError::UnexpectedShape),
    }
}

/// The listing that a payload text holds.
pub fn listing_from_payload(payload: &str) -> (found: Result<Vec<ContestRecord>, ListingError>)
    ensures
        is_listing(found, listing_of_payload(payload@)),
{
    match parse_value(payload) {
        Ok(document) => listing_in_document(&document),
        Err(_) => Err(ListingError::NotJson),
    }
}

/// The listing that the script blocks of a page hold.
pub fn listing_from_blocks(blocks: &Vec<String>) -> (found: Result<
    Vec<ContestRecord>,
    ListingError,
>)
    ensures
        is_listing(found, listing_of_blocks(texts_view(blocks@))),
{
    match find_payload(blocks) {
        Some(payload) => listing_from_payload(payload.as_str()),
        None => Err(ListingError::NoPayload),
    }
}

/// The listing of a page: every contest record that the page carries,
/// whether the contest is still open or not. It is the listing of the script
/// blocks of the page, as `listing_from_blocks` reads it.
pub fn extract_listing(page: &str) -> (found: Result<Vec<ContestRecord>, ListingError>)
    ensures
        is_listing_of_some_blocks(found),
{
    let blocks = script_blocks(page);
    let found = listing_from_blocks(&blocks);
    proof {
        assert(is_listing(found, listing_of_blocks(texts_view(blocks@))));
    }
    found
}

/// The contests of a page that are active at `now`: what the filter for
/// active contests leaves of the listing of the script blocks of the page.
pub fn get_active_contests(page: &str, now: Instant) -> (found: Result<
    Vec<ContestRecord>,
    ListingError,
>)
    ensures
        is_filtered_listing_of_some_blocks(found, |record: ContestView| record.active_at(now)),
{
    let blocks = script_blocks(page);
    let found = match listing_from_blocks(&blocks) {
        Ok(records) => Ok(filter_active(records, now)),
        Err(error) => Err(error),
    };
    proof {
        assert(is_listing(
            found,
            filtered(
                listing_of_blocks(texts_view(blocks@)),
                |record: ContestView| record.active_at(now),
            ),
        ));
    }
    found
}

/// The contests of a page that are eligible at `now`, active and public:
/// what the stricter filter leaves of the listing of the script blocks of
/// the page.
pub fn get_eligible_contests(page: &str, now: Instant) -> (found: Result<
    Vec<ContestRecord>,
    ListingError,
>)
    ensures
        is_filtered_listing_of_some_blocks(
            found,
            |record: ContestView| record.eligible_at(now),
        ),
{
    let blocks = script_blocks(page);
    let found = match listing_from_blocks(&blocks) {
        Ok(records) => Ok(filter_eligible(records, now)),
        Err(error) => Err(error),
    };
    proof {
        assert(is_listing(
            found,
            filtered(
                listing_of_blocks(texts_view(blocks@)),
                |record: ContestView| record.eligible_at(now),
            ),
        ));
    }
    found
}

} // verus!
