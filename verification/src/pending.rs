//! The pending list of identifiers and the rules for one typed line.
//!
//! Each typed line is trimmed of surrounding whitespace and then acted
//! on: a terminator word (case-insensitive) ends collection; an empty
//! line or an exact duplicate of a pending identifier is ignored; a
//! `file:`-prefixed line names a file whose lines are bulk-loaded; any
//! other line is appended verbatim as a new identifier.

use vstd::prelude::*;
use vstd::string::*;

use crate::lines::dedup_lines;
use crate::lines::dedup_spec;
use crate::lines::split_crlf;
use crate::lines::split_crlf_lines;
use crate::lines::vec_contains_str;
use crate::strutil::has_prefix;
use crate::strutil::lower_of;
use crate::strutil::lowercase;
use crate::strutil::str_eq;
use crate::strutil::str_has_prefix;
use crate::strutil::substring_string;
use crate::strutil::trim_spec;
use crate::strutil::trim_string;

verus! {

/// What the collector does with one typed line.
pub enum InputAction {
    /// A terminator was typed: collection is over.
    Finish,
    /// The line was empty or a duplicate: nothing changed.
    Ignore,
    /// The line named a file to bulk-load; the field is its path.
    ReadFile(String),
    /// The line was appended to the list as a new identifier.
    Added,
}

/// A trimmed line that ends collection: `continue` or `download`, in
/// any mix of upper and lower case.
pub open spec fn is_terminator(cleaned: Seq<char>) -> bool {
    lower_of(cleaned) == "continue"@ || lower_of(cleaned) == "download"@
}

/// The ordered list of identifiers collected so far.
pub struct PendingList {
    items: Vec<String>,
}

impl View for PendingList {
    type V = Seq<Seq<char>>;

    closed spec fn view(&self) -> Seq<Seq<char>> {
        self.items.deep_view()
    }
}

impl PendingList {
    /// An empty list.
    pub fn new() -> (r: PendingList)
        ensures
            r@ == Seq::<Seq<char>>::empty(),
    {
        let items: Vec<String> = Vec::new();
        proof {
            assert(items.deep_view() =~= Seq::<Seq<char>>::empty());
        }
        PendingList { items }
    }

    /// How many identifiers are pending.
    pub fn len(&self) -> (n: usize)
        ensures
            n == self@.len(),
    {
        self.items.len()
    }

    /// True exactly when `x` is already pending.
    pub fn contains(&self, x: &str) -> (r: bool)
        ensures
            r == self@.contains(x@),
    {
        vec_contains_str(&self.items, x)
    }

    /// The identifier at position `i`.
    pub fn get(&self, i: usize) -> (r: &String)
        requires
            i < self@.len(),
        ensures
            r@ == self@[i as int],
    {
        &self.items[i]
    }

    /// Acts on one typed line: trims it, then either ends collection,
    /// ignores it, asks for a bulk load, or appends it. A line whose
    /// trimmed form is already pending is never added twice.
    pub fn process_line(&mut self, raw: &str) -> (a: InputAction)
        ensures
            ({
                let cleaned = trim_spec(raw@);
                &&& (is_terminator(cleaned) ==> a == InputAction::Finish && final(self)@ == old(self)@)
                &&& (!is_terminator(cleaned) && (cleaned.len() == 0 || old(self)@.contains(cleaned))
                    ==> a == InputAction::Ignore && final(self)@ == old(self)@)
                &&& (!is_terminator(cleaned) && cleaned.len() > 0 && !old(self)@.contains(cleaned)
                    && has_prefix(cleaned, "file:"@) ==> final(self)@ == old(self)@ && (a matches
                InputAction::ReadFile(p) && p@ == cleaned.skip("file:"@.len() as int)))
                &&& (!is_terminator(cleaned) && cleaned.len() > 0 && !old(self)@.contains(cleaned)
                    && !has_prefix(cleaned, "file:"@) ==> a == InputAction::Added && final(self)@ == old(
                    self,
                )@.push(cleaned))
            }),
    {
        let cleaned = trim_string(raw);
        let lowered = lowercase(cleaned.as_str());
        if str_eq(lowered.as_str(), "continue") || str_eq(lowered.as_str(), "download") {
            return InputAction::Finish;
        }
        let clen = cleaned.as_str().unicode_len();
        if clen == 0 || self.contains(cleaned.as_str()) {
            return InputAction::Ignore;
        }
        if str_has_prefix(cleaned.as_str(), "file:") {
            proof {
                reveal_strlit("file:");
            }
            let path = substring_string(cleaned.as_str(), 5, clen);
            proof {
                assert(cleaned@.subrange(5, cleaned@.len() as int) =~= cleaned@.skip(5));
            }
            return InputAction::ReadFile(path);
        }
        let ghost prior = self.items.deep_view();
        self.items.push(cleaned);
        proof {
            assert(self.items.deep_view() =~= prior.push(trim_spec(raw@)));
        }
        InputAction::Added
    }

    /// Appends the deduplicated lines of one loaded file and returns
    /// how many were appended. The lines are deduplicated only within
    /// this load: one that equals an already-pending identifier is
    /// appended again.
    pub fn merge_file_lines(&mut self, content: &str) -> (n: usize)
        ensures
            final(self)@ == old(self)@ + dedup_spec(split_crlf(content@)),
            n == dedup_spec(split_crlf(content@)).len(),
    {
        let pieces = split_crlf_lines(content);
        let mut unique = dedup_lines(&pieces);
        let n = unique.len();
        let ghost prior = self.items.deep_view();
        let ghost added = unique.deep_view();
        self.items.append(&mut unique);
        proof {
            assert(self.items.deep_view() =~= prior + added);
        }
        n
    }

    /// Hands the collected identifiers over for downloading, or reports
    /// the error when nothing was collected. The error comes exactly on
    /// an empty list, and the identifiers come out unchanged, in order.
    pub fn into_targets(self) -> (r: Result<Vec<String>, String>)
        ensures
            self@.len() == 0 <==> r is Err,
            (r matches Ok(v) ==> v.deep_view() == self@),
            (r matches Err(m) ==> m@ == "No URL to download"@),
    {
        if self.items.len() == 0 {
            Err(String::from_str("No URL to download"))
        } else {
            Ok(self.items)
        }
    }
}

} // verus!
