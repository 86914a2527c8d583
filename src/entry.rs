use vstd::prelude::*;
use crate::codec::{decode_meta, encode_meta, json_list_text, meta_of_text, meta_text};
use crate::meta::Meta;

verus! {

/// Why a word list or a statistics text could not be read.
#[derive(Clone, Copy, Debug, PartialEq, Eq, Structural)]
pub enum StoreError {
    /// The table has no header, a header without the expected columns, or a
    /// row of the wrong width; or its bytes are not a table at all.
    Format,
    /// A statistics text is malformed, or could not be written.
    Metadata,
}

/// One row of the word list: the two terms, the statistics text as it stands
/// in the file (`None` when the entry was never reviewed), and the statistics
/// decoded from it.
#[derive(Debug)]
pub struct Entry {
    pub en: String,
    pub zh: String,
    pub meta_str: Option<String>,
    pub meta: Meta,
}

/// The statistics that a row's statistics text stands for: none recorded when
/// the text is absent, `None` when it is malformed.
pub open spec fn decoded(raw: Option<Seq<char>>) -> Option<(nat, Set<Seq<char>>)> {
    match raw {
        None => Some((0, Set::empty())),
        Some(t) => meta_of_text(t),
    }
}

/// The statistics text as a character sequence.
pub open spec fn raw_view(raw: Option<String>) -> Option<Seq<char>> {
    match raw {
        None => None,
        Some(s) => Some(s@),
    }
}

impl Entry {
    /// The row of the file that the entry stands for.
    pub open spec fn row_view(&self) -> (Seq<char>, Seq<char>, Option<Seq<char>>) {
        (self.en@, self.zh@, raw_view(self.meta_str))
    }

    /// The decoded statistics as plain values.
    pub open spec fn meta_view(&self) -> (nat, Set<Seq<char>>) {
        (self.meta.cnt as nat, self.meta.alias_set())
    }

    /// An entry as read from a row, with statistics not yet decoded.
    pub fn new(en: String, zh: String, meta_str: Option<String>) -> (r: Entry)
        ensures
            r.en == en,
            r.zh == zh,
            r.meta_str == meta_str,
            r.meta.wf(),
            r.meta.cnt == 0,
            r.meta.aliases().len() == 0,
    {
        Entry { en, zh, meta_str, meta: Meta::new() }
    }

    /// Decodes the statistics text into `meta`. An absent text stands for an
    /// entry never reviewed; a malformed one is a `Metadata` error, and
    /// `meta` is then left as it was.
    pub fn load(&mut self) -> (r: Result<(), StoreError>)
        ensures
            final(self).row_view() == old(self).row_view(),
            r is Ok <==> decoded(raw_view(old(self).meta_str)) is Some,
            r is Ok ==> final(self).meta.wf(),
            r is Ok ==> decoded(raw_view(old(self).meta_str)) == Some(final(self).meta_view()),
            r is Err ==> r->Err_0 == StoreError::Metadata && final(self).meta == old(self).meta,
    {
        match &self.meta_str {
            None => {
                self.meta = Meta::new();
                Ok(())
            },
            Some(s) => {
                match decode_meta(s.as_str()) {
                    Ok(m) => {
                        self.meta = m;
                        Ok(())
                    },
                    Err(e) => Err(e),
                }
            },
        }
    }

    /// Encodes `meta` into the statistics text: the count in decimal and the
    /// aliases, in their canonical order, as the JSON array serde_json writes.
    pub fn save(&mut self) -> (r: Result<(), StoreError>)
        ensures
            r is Ok,
            final(self).en == old(self).en,
            final(self).zh == old(self).zh,
            final(self).meta == old(self).meta,
            raw_view(final(self).meta_str) == Some(
                meta_text(old(self).meta.cnt as nat, json_list_text(old(self).meta.aliases())),
            ),
    {
        match encode_meta(&self.meta) {
            Some(t) => {
                self.meta_str = Some(t);
                Ok(())
            },
            None => Err(StoreError::Metadata),
        }
    }
}

/// Statistics with the same count and the same alias set are saved as the
/// same text.
pub proof fn lemma_save_canonical(m1: Meta, m2: Meta)
    requires
        m1.wf(),
        m2.wf(),
        m1.cnt == m2.cnt,
        m1.alias_set() == m2.alias_set(),
    ensures
        meta_text(m1.cnt as nat, json_list_text(m1.aliases())) == meta_text(
            m2.cnt as nat,
            json_list_text(m2.aliases()),
        ),
{
    crate::meta::lemma_canonical(m1, m2);
}

} // verus!
