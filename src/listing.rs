//! The front end's list: entries from the daemon made into menus, and the
//! search that narrows them.

use vstd::prelude::*;
use vstd::utf8::{decode_utf8, valid_utf8};

use crate::codec::copy_range;
use crate::context::{
    is_address, Address, ContentType, ContentTypeId, ContentView, ContextMenu, ImageContext,
    TextContext,
};
use crate::error::OxiPasteError;
use crate::text::{
    contains_chars, lower_of, str_contains, str_to_lowercase, string_from_utf8,
};

verus! {

pub open spec fn conversion_message() -> Seq<char> {
    "Could not convert data from daemon"@
}

/// How the front end shows an entry with payload `p` and label `m`: a label
/// that names `text/plain` makes text, an address where the text reads as
/// one, and an error where the payload is not UTF-8; any other label makes an
/// image.
pub open spec fn classified(p: Seq<u8>, m: Seq<char>) -> Result<ContentView, Seq<char>> {
    if contains_chars(m, "text/plain"@) {
        if valid_utf8(p) {
            if is_address(decode_utf8(p)) {
                Ok(ContentView::Address(decode_utf8(p)))
            } else {
                Ok(ContentView::Text(decode_utf8(p)))
            }
        } else {
            Err(conversion_message())
        }
    } else {
        Ok(ContentView::Image(p))
    }
}

/// The entry with payload `payload` and label `mime` as the front end shows it.
pub fn classify_entry(payload: &Vec<u8>, mime: &String) -> (r: Result<ContentType, OxiPasteError>)
    ensures
        r is Ok <==> classified(payload@, mime@) is Ok,
        r is Ok ==> classified(payload@, mime@) == Ok::<ContentView, Seq<char>>(r->Ok_0@),
        r is Err ==> r->Err_0@ == conversion_message(),
{
    let bytes = copy_range(payload.as_slice(), 0, payload.len());
    proof {
        assert(bytes@ =~= payload@);
    }
    if str_contains(mime.as_str(), "text/plain") {
        match string_from_utf8(bytes) {
            Some(text) => match Address::try_build(text) {
                Ok(address) => Ok(ContentType::Text(TextContext::Address(address))),
                Err(text) => Ok(ContentType::Text(TextContext::Text(text))),
            },
            None => Err(OxiPasteError::new("Could not convert data from daemon")),
        }
    } else {
        Ok(ContentType::Image(ImageContext::Regular(bytes)))
    }
}

/// The list that the front end shows for the daemon's entries: entry `i`
/// under key `i`, folded; or the error of the first entry that cannot be shown.
pub fn menus_from_entries(items: &Vec<(Vec<u8>, String)>) -> (r: Result<Vec<(i32, ContextMenu)>, OxiPasteError>)
    requires
        items@.len() <= i32::MAX,
    ensures
        r is Ok <==> forall|i: int| 0 <= i < items@.len() ==> (#[trigger] classified(items@[i].0@, items@[i].1@)) is Ok,
        r is Ok ==> r->Ok_0@.len() == items@.len(),
        r is Ok ==> forall|i: int| 0 <= i < items@.len() ==> {
            &&& (#[trigger] r->Ok_0@[i]).0 == i
            &&& !r->Ok_0@[i].1.toggled
            &&& classified(items@[i].0@, items@[i].1@) == Ok::<ContentView, Seq<char>>(r->Ok_0@[i].1.content_type@)
        },
        r is Err ==> r->Err_0@ == conversion_message(),
{
    let mut out: Vec<(i32, ContextMenu)> = Vec::new();
    let mut i: usize = 0;
    while i < items.len()
        invariant
            i <= items@.len(),
            items@.len() <= i32::MAX,
            out@.len() == i,
            forall|j: int| 0 <= j < i ==> (#[trigger] classified(items@[j].0@, items@[j].1@)) is Ok,
            forall|j: int| 0 <= j < i ==> {
                &&& (#[trigger] out@[j]).0 == j
                &&& !out@[j].1.toggled
                &&& classified(items@[j].0@, items@[j].1@) == Ok::<ContentView, Seq<char>>(out@[j].1.content_type@)
            },
        decreases items@.len() - i,
    {
        match classify_entry(&items[i].0, &items[i].1) {
            Ok(content_type) => {
                out.push((i as i32, ContextMenu { toggled: false, content_type }));
            },
            Err(e) => {
                return Err(e);
            },
        }
        i = i + 1;
    }
    Ok(out)
}

/// Whether an entry of this kind is shown under the choice `ty`.
pub open spec fn kind_allowed(v: ContentView, ty: ContentTypeId) -> bool {
    ty == ContentTypeId::All || match v {
        ContentView::Address(_) => ty == ContentTypeId::AddressText,
        ContentView::Text(_) => ty == ContentTypeId::PlainText,
        ContentView::Image(_) => ty == ContentTypeId::Image,
    }
}

/// Whether an entry is shown for the search text `filter` and the kind `ty`:
/// a text when its lower case holds the search's lower case, an image when
/// the search is empty or holds `image`.
pub open spec fn shown(v: ContentView, filter: Seq<char>, ty: ContentTypeId) -> bool {
    kind_allowed(v, ty) && match v {
        ContentView::Address(t) => contains_chars(lower_of(t), lower_of(filter)),
        ContentView::Text(t) => contains_chars(lower_of(t), lower_of(filter)),
        ContentView::Image(_) => contains_chars(filter, "image"@) || filter.len() == 0,
    }
}

/// Whether a text, already in lower case, holds a search, already in lower case.
pub fn matches_folded(folded_text: &str, folded_filter: &str) -> (r: bool)
    ensures
        r == contains_chars(folded_text@, folded_filter@),
{
    str_contains(folded_text, folded_filter)
}

/// Whether the entry of `menu` is shown for the search text and the kind.
pub fn matches_filter(menu: &ContextMenu, filter_text: &String, filter_type: ContentTypeId) -> (r: bool)
    ensures
        r == shown(menu.content_type@, filter_text@, filter_type),
{
    match &menu.content_type {
        ContentType::Text(text_content) => {
            let (text, allow_type) = match text_content {
                TextContext::Text(text) => (
                    text.as_str(),
                    filter_type == ContentTypeId::All || filter_type == ContentTypeId::PlainText,
                ),
                TextContext::Address(address) => (
                    address.as_str(),
                    filter_type == ContentTypeId::All || filter_type == ContentTypeId::AddressText,
                ),
            };
            let folded_text = str_to_lowercase(text);
            let folded_filter = str_to_lowercase(filter_text.as_str());
            matches_folded(folded_text.as_str(), folded_filter.as_str()) && allow_type
        },
        ContentType::Image(_) => {
            (str_contains(filter_text.as_str(), "image") || filter_text.as_str().is_empty()) && (
            filter_type == ContentTypeId::All || filter_type == ContentTypeId::Image)
        },
    }
}

/// The keys and models of a list of entries.
pub open spec fn menus_view(v: Seq<(i32, ContextMenu)>) -> Seq<(i32, ContentView)> {
    Seq::new(v.len(), |i: int| (v[i].0, v[i].1.content_type@))
}

/// The keys of the entries of `items` that are shown, in order.
pub open spec fn shown_keys(items: Seq<(i32, ContentView)>, filter: Seq<char>, ty: ContentTypeId) -> Seq<i32>
    decreases items.len(),
{
    if items.len() == 0 {
        Seq::empty()
    } else {
        let rest = shown_keys(items.drop_last(), filter, ty);
        if shown(items.last().1, filter, ty) {
            rest.push(items.last().0)
        } else {
            rest
        }
    }
}

/// The keys of the entries that are shown for the search text and the kind,
/// in the list's order.
pub fn filter_keys(items: &Vec<(i32, ContextMenu)>, filter_text: &String, filter_type: ContentTypeId) -> (r: Vec<i32>)
    ensures
        r@ == shown_keys(menus_view(items@), filter_text@, filter_type),
{
    let mut out: Vec<i32> = Vec::new();
    let mut i: usize = 0;
    while i < items.len()
        invariant
            i <= items@.len(),
            out@ == shown_keys(menus_view(items@).take(i as int), filter_text@, filter_type),
        decreases items@.len() - i,
    {
        proof {
            assert(menus_view(items@).take(i as int + 1).drop_last() =~= menus_view(items@).take(i as int));
        }
        if matches_filter(&items[i].1, filter_text, filter_type) {
            out.push(items[i].0);
        }
        i = i + 1;
    }
    proof {
        assert(menus_view(items@).take(i as int) =~= menus_view(items@));
    }
    out
}

} // verus!
