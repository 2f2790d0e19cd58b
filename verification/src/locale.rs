//! The transcript's number formats per language: an index format and a page
//! number format, with English as the fallback for unknown languages.

use vstd::prelude::*;

verus! {

/// The two numbering formats a transcript is set with.
#[derive(Debug, Clone, PartialEq, Eq)]
pub struct I18n {
    pub index_format: String,
    pub page_number_format: String,
}

/// The formats for a language tag: Bangla gets its own numerals, everything
/// else falls back to English.
pub fn i18n(lang: &str) -> (r: I18n)
    ensures
        lang@ == "bn"@ ==> r.index_format@ == "১.১)"@ && r.page_number_format@ == "১"@,
        lang@ != "bn"@ ==> r.index_format@ == "1."@ && r.page_number_format@ == "1"@,
{
    let tag = String::from_str(lang);
    let bn = String::from_str("bn");
    if tag == bn {
        I18n {
            index_format: String::from_str("১.১)"),
            page_number_format: String::from_str("১"),
        }
    } else {
        I18n { index_format: String::from_str("1."), page_number_format: String::from_str("1") }
    }
}

} // verus!
