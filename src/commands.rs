use vstd::prelude::*;

use crate::api::TocEntry;
use crate::text::{is_blank, lower_of, lowercase, str_eq, trim, trimmed};

verus! {

/// Why a table of contents was refused.
#[derive(Clone, Copy, PartialEq, Eq, Structural, Debug)]
pub enum TocError {
    EmptyTitle,
    PageBelowOne,
    LevelBelowOne,
}

/// What is wrong with one entry, checked in the order title, page, level.
pub open spec fn entry_error(e: TocEntry) -> Option<TocError> {
    if trim(e.title@).len() == 0 {
        Some(TocError::EmptyTitle)
    } else if e.page < 1 {
        Some(TocError::PageBelowOne)
    } else if e.level matches Some(l) && l < 1 {
        Some(TocError::LevelBelowOne)
    } else {
        None
    }
}

/// What is wrong with one table-of-contents entry, if anything.
pub fn check_entry(e: &TocEntry) -> (r: Option<TocError>)
    ensures
        r == entry_error(*e),
{
    if is_blank(e.title.as_str()) {
        Some(TocError::EmptyTitle)
    } else if e.page < 1 {
        Some(TocError::PageBelowOne)
    } else {
        match e.level {
            Some(l) => if l < 1 {
                Some(TocError::LevelBelowOne)
            } else {
                None
            },
            None => None,
        }
    }
}

/// Checks every entry of a table of contents; the first faulty entry decides.
pub fn validate_toc(entries: &Vec<TocEntry>) -> (r: Result<(), TocError>)
    ensures
        match r {
            Ok(_) => forall|i: int| 0 <= i < entries@.len() ==> entry_error(#[trigger] entries@[i]) is None,
            Err(e) => exists|j: int|
                0 <= j < entries@.len() && entry_error(#[trigger] entries@[j]) == Some(e) && forall|
                    k: int,
                | 0 <= k < j ==> entry_error(#[trigger] entries@[k]) is None,
        },
{
    let mut i: usize = 0;
    while i < entries.len()
        invariant
            i <= entries@.len(),
            forall|k: int| 0 <= k < i ==> entry_error(#[trigger] entries@[k]) is None,
        decreases entries@.len() - i,
    {
        match check_entry(&entries[i]) {
            Some(e) => {
                assert(entry_error(entries@[i as int]) == Some(e));
                return Err(e);
            },
            None => {},
        }
        i = i + 1;
    }
    Ok(())
}

impl TocError {
    /// The message shown for this error.
    pub fn message(&self) -> (r: &'static str)
        ensures
            r@ == match *self {
                TocError::EmptyTitle => "TOC entry title cannot be empty"@,
                TocError::PageBelowOne => "TOC entry page must be >= 1"@,
                TocError::LevelBelowOne => "TOC entry level must be >= 1"@,
            },
    {
        match self {
            TocError::EmptyTitle => "TOC entry title cannot be empty",
            TocError::PageBelowOne => "TOC entry page must be >= 1",
            TocError::LevelBelowOne => "TOC entry level must be >= 1",
        }
    }
}

/// Whether an enrichment changes anything: at least one of title, author,
/// description or table of contents is given.
pub fn enrich_has_changes(title: bool, author: bool, description: bool, toc: bool) -> (r: bool)
    ensures
        r == (title || author || description || toc),
{
    title || author || description || toc
}

/// Whether a lower-case answer agrees: `y` or `yes`.
pub open spec fn is_yes(lowered: Seq<char>) -> bool {
    lowered == "y"@ || lowered == "yes"@
}

/// Whether a lower-case answer agrees.
pub fn is_yes_word(lowered: &str) -> (r: bool)
    ensures
        r == is_yes(lowered@),
{
    str_eq(lowered, "y") || str_eq(lowered, "yes")
}

/// Whether a typed answer to a yes/no question agrees, in any case and with
/// surrounding whitespace.
pub fn is_confirmation(input: &str) -> (r: bool)
    ensures
        r == is_yes(lower_of(trim(input@))),
{
    let t = trimmed(input);
    let lowered = lowercase(t.as_str());
    is_yes_word(lowered.as_str())
}

/// Whether content to store holds anything but whitespace.
pub fn has_content(content: &str) -> (r: bool)
    ensures
        r == (trim(content@).len() > 0),
{
    !is_blank(content)
}

} // verus!
