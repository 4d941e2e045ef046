//! Pagination analysis. The HTML itself is read outside the verified core;
//! what the analysis consumes is a `PageDoc`: the plain values extracted
//! from the page — the active page marker's text, whether a "next" control
//! exists and is disabled, and the texts of all page links.

use crate::error::ScraperError;
use crate::stats::strings_view;
use crate::utils::{parse_usize, parse_usize_spec, trim, trim_spec};
use vstd::prelude::*;
use vstd::string::StringExecFns;

verus! {

/// What pagination analysis reads from a results page.
#[derive(Debug)]
pub struct PageDoc {
    /// Text of the active-page marker, when the page has pagination.
    pub active_page_text: Option<String>,
    /// Whether a "next page" control is present.
    pub has_next: bool,
    /// Whether that control is disabled.
    pub next_disabled: bool,
    /// Texts of the individual page links.
    pub page_texts: Vec<String>,
}

/// The outcome of analyzing a results page.
#[derive(Debug)]
pub struct PageInfo {
    pub current_page: usize,
    pub next_url: Option<String>,
    pub total_pages: Option<usize>,
}

/// The digit character for the value `d`.
pub open spec fn digit_char(d: int) -> char {
    if d == 0 {
        '0'
    } else if d == 1 {
        '1'
    } else if d == 2 {
        '2'
    } else if d == 3 {
        '3'
    } else if d == 4 {
        '4'
    } else if d == 5 {
        '5'
    } else if d == 6 {
        '6'
    } else if d == 7 {
        '7'
    } else if d == 8 {
        '8'
    } else {
        '9'
    }
}

/// The decimal rendering of `n`, most significant digit first.
pub open spec fn dec_str(n: int) -> Seq<char>
    decreases n,
{
    if n < 10 {
        seq![digit_char(n)]
    } else {
        dec_str(n / 10).push(digit_char(n % 10))
    }
}

/// The page number the active-page text denotes; `Some(1)` when the page
/// has no pagination at all.
pub open spec fn current_page_spec(doc: PageDoc) -> Option<usize> {
    match doc.active_page_text {
        None => Some(1),
        Some(t) => parse_usize_spec(trim_spec(t@)),
    }
}

/// The largest page number among the page-link texts that parse as numbers,
/// if any does.
pub open spec fn max_page_spec(texts: Seq<Seq<char>>) -> Option<usize>
    decreases texts.len(),
{
    if texts.len() == 0 {
        None
    } else {
        let rest = max_page_spec(texts.drop_last());
        let cur = parse_usize_spec(trim_spec(texts.last()));
        match (rest, cur) {
            (None, c) => c,
            (Some(a), None) => Some(a),
            (Some(a), Some(b)) => Some(
                if a >= b {
                    a
                } else {
                    b
                },
            ),
        }
    }
}

/// The single-character string for the digit `d`.
fn digit_str(d: usize) -> (r: String)
    requires
        d < 10,
    ensures
        r@ == seq![digit_char(d as int)],
{
    match d {
        0 => {
            proof {
                reveal_strlit("0");
                assert("0"@ =~= seq![digit_char(0)]);
            }
            "0".to_owned()
        },
        1 => {
            proof {
                reveal_strlit("1");
                assert("1"@ =~= seq![digit_char(1)]);
            }
            "1".to_owned()
        },
        2 => {
            proof {
                reveal_strlit("2");
                assert("2"@ =~= seq![digit_char(2)]);
            }
            "2".to_owned()
        },
        3 => {
            proof {
                reveal_strlit("3");
                assert("3"@ =~= seq![digit_char(3)]);
            }
            "3".to_owned()
        },
        4 => {
            proof {
                reveal_strlit("4");
                assert("4"@ =~= seq![digit_char(4)]);
            }
            "4".to_owned()
        },
        5 => {
            proof {
                reveal_strlit("5");
                assert("5"@ =~= seq![digit_char(5)]);
            }
            "5".to_owned()
        },
        6 => {
            proof {
                reveal_strlit("6");
                assert("6"@ =~= seq![digit_char(6)]);
            }
            "6".to_owned()
        },
        7 => {
            proof {
                reveal_strlit("7");
                assert("7"@ =~= seq![digit_char(7)]);
            }
            "7".to_owned()
        },
        8 => {
            proof {
                reveal_strlit("8");
                assert("8"@ =~= seq![digit_char(8)]);
            }
            "8".to_owned()
        },
        _ => {
            proof {
                reveal_strlit("9");
                assert("9"@ =~= seq![digit_char(9)]);
            }
            "9".to_owned()
        },
    }
}

/// Renders `n` in decimal.
pub fn render_usize(n: usize) -> (r: String)
    ensures
        r@ == dec_str(n as int),
    decreases n,
{
    if n < 10 {
        digit_str(n)
    } else {
        let head = render_usize(n / 10);
        let tail = digit_str(n % 10);
        head.concat(tail.as_str())
    }
}

/// Pagination analyzer over a modeled results page.
pub struct PageScraper {
    pub doc: PageDoc,
    pub base_url: String,
}

impl PageScraper {
    /// An analyzer with the default base URL.
    pub fn new(doc: PageDoc) -> (r: PageScraper)
        ensures
            r.doc == doc,
            r.base_url@ == "https://clutch.co"@,
    {
        PageScraper { doc, base_url: "https://clutch.co".to_owned() }
    }

    /// The same analyzer with another base URL.
    pub fn with_base_url(self, base_url: String) -> (r: PageScraper)
        ensures
            r.doc == self.doc,
            r.base_url == base_url,
    {
        PageScraper { doc: self.doc, base_url }
    }

    /// The number shown by the active-page marker, or 1 when the page has
    /// no pagination; a marker that does not parse is an error.
    pub fn get_current_page(&self) -> (r: Result<usize, ScraperError>)
        ensures
            match r {
                Ok(p) => current_page_spec(self.doc) == Some(p),
                Err(e) => current_page_spec(self.doc) is None && (e matches ScraperError::ParseError(
                    m,
                ) && m@ == "Could not parse page number"@),
            },
    {
        match &self.doc.active_page_text {
            None => Ok(1),
            Some(t) => match parse_usize(trim(t.as_str())) {
                Some(p) => Ok(p),
                None => Err(ScraperError::ParseError("Could not parse page number".to_owned())),
            },
        }
    }

    /// The URL of the next results page: present exactly when a "next"
    /// control exists and is not disabled, built from the base URL and the
    /// current page number.
    pub fn get_next_page_url(&self) -> (r: Result<Option<String>, ScraperError>)
        ensures
            (!self.doc.has_next || self.doc.next_disabled) ==> (r matches Ok(u) && u is None),
            (self.doc.has_next && !self.doc.next_disabled) ==> match current_page_spec(self.doc) {
                Some(p) => r matches Ok(u) && (u matches Some(s) && s@ == self.base_url@
                    + "/developers/rust?page="@ + dec_str(p as int)),
                None => r matches Err(e) && (e matches ScraperError::ParseError(m) && m@
                    == "Could not parse page number"@),
            },
    {
        if !self.doc.has_next || self.doc.next_disabled {
            return Ok(None);
        }
        let current = match self.get_current_page() {
            Ok(p) => p,
            Err(e) => {
                return Err(e);
            },
        };
        let rendered = render_usize(current);
        let url = self.base_url.clone().concat("/developers/rust?page=").concat(
            rendered.as_str(),
        );
        Ok(Some(url))
    }

    /// The largest page number any page link shows, if one parses.
    pub fn get_total_pages(&self) -> (r: Option<usize>)
        ensures
            r == max_page_spec(strings_view(self.doc.page_texts@)),
    {
        let mut acc: Option<usize> = None;
        let n = self.doc.page_texts.len();
        let mut i: usize = 0;
        proof {
            assert(strings_view(self.doc.page_texts@).take(0) =~= Seq::<Seq<char>>::empty());
        }
        while i < n
            invariant
                n == self.doc.page_texts@.len(),
                i <= n,
                acc == max_page_spec(strings_view(self.doc.page_texts@).take(i as int)),
            decreases n - i,
        {
            let parsed = parse_usize(trim(self.doc.page_texts[i].as_str()));
            acc = match (acc, parsed) {
                (None, c) => c,
                (Some(a), None) => Some(a),
                (Some(a), Some(b)) => Some(
                    if a >= b {
                        a
                    } else {
                        b
                    },
                ),
            };
            proof {
                let tv = strings_view(self.doc.page_texts@);
                assert(tv.take(i as int + 1).drop_last() =~= tv.take(i as int));
                assert(tv.take(i as int + 1).last() == tv[i as int]);
                assert(tv[i as int] == self.doc.page_texts@[i as int]@);
            }
            i = i + 1;
        }
        proof {
            assert(strings_view(self.doc.page_texts@).take(n as int) =~= strings_view(
                self.doc.page_texts@,
            ));
        }
        acc
    }

    /// Full page analysis: current page, next-page URL and total page count.
    /// Fails exactly when the active-page marker does not parse.
    pub fn analyze(&self) -> (r: Result<PageInfo, ScraperError>)
        ensures
            match r {
                Ok(info) => {
                    &&& current_page_spec(self.doc) == Some(info.current_page)
                    &&& info.total_pages == max_page_spec(strings_view(self.doc.page_texts@))
                    &&& match info.next_url {
                        Some(s) => self.doc.has_next && !self.doc.next_disabled && s@
                            == self.base_url@ + "/developers/rust?page="@ + dec_str(
                            info.current_page as int,
                        ),
                        None => !self.doc.has_next || self.doc.next_disabled,
                    }
                },
                Err(e) => current_page_spec(self.doc) is None && (e matches ScraperError::ParseError(
                    m,
                ) && m@ == "Could not parse page number"@),
            },
    {
        let current_page = match self.get_current_page() {
            Ok(p) => p,
            Err(e) => {
                return Err(e);
            },
        };
        let next_url = match self.get_next_page_url() {
            Ok(u) => u,
            Err(e) => {
                return Err(e);
            },
        };
        let total_pages = self.get_total_pages();
        Ok(PageInfo { current_page, next_url, total_pages })
    }
}

} // verus!
