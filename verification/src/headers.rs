//! A small collection of named header lines, as a debug transport
//! frames them: each line is `Name: value`, a name is added at most
//! once, and values are looked up by name.

use vstd::prelude::*;

use crate::parser::{is_space, skip_ws, str_eq};

verus! {

/// One header: a name bound to a value.
#[derive(Clone, Debug)]
pub struct HeaderEntry {
    pub name: String,
    pub value: String,
}

/// The abstract form of a [`HeaderEntry`].
pub ghost struct HeaderV {
    pub name: Seq<char>,
    pub value: Seq<char>,
}

impl View for HeaderEntry {
    type V = HeaderV;

    open spec fn view(&self) -> HeaderV {
        HeaderV { name: self.name@, value: self.value@ }
    }
}

impl DeepView for HeaderEntry {
    type V = HeaderV;

    open spec fn deep_view(&self) -> HeaderV {
        self.view()
    }
}

/// A fault of the header parser, carrying the line or name it reports.
#[derive(Clone, Debug, PartialEq, Eq)]
pub enum HeaderError {
    /// The line has no name before its `": "` separator.
    NoName { line: String },
    /// The line has no `": "` separator, so no value follows.
    NoValue { line: String },
    /// The name is already bound.
    DuplicateKey { name: String },
}

/// The abstract form of a [`HeaderError`].
pub ghost enum HeaderErrorV {
    NoName { line: Seq<char> },
    NoValue { line: Seq<char> },
    DuplicateKey { name: Seq<char> },
}

impl View for HeaderError {
    type V = HeaderErrorV;

    open spec fn view(&self) -> HeaderErrorV {
        match self {
            HeaderError::NoName { line } => HeaderErrorV::NoName { line: line@ },
            HeaderError::NoValue { line } => HeaderErrorV::NoValue { line: line@ },
            HeaderError::DuplicateKey { name } => HeaderErrorV::DuplicateKey { name: name@ },
        }
    }
}

/// The rendered text of each header fault.
pub open spec fn header_error_text(e: HeaderErrorV) -> Seq<char> {
    match e {
        HeaderErrorV::NoName { line } => "No header name found in:\n\t"@ + line,
        HeaderErrorV::NoValue { line } => "No header value found in:\n\t"@ + line,
        HeaderErrorV::DuplicateKey { name } => "Header collection already contains key \""@ + name
            + "\"!"@,
    }
}

impl HeaderError {
    /// Renders the fault as the text the parser would report.
    pub fn message(&self) -> (r: String)
        ensures
            r@ == header_error_text(self@),
    {
        let mut s = String::new();
        match self {
            HeaderError::NoName { line } => {
                proof {
                    reveal_strlit("No header name found in:\n\t");
                }
                s.append("No header name found in:\n\t");
                s.append(line.as_str());
            },
            HeaderError::NoValue { line } => {
                proof {
                    reveal_strlit("No header value found in:\n\t");
                }
                s.append("No header value found in:\n\t");
                s.append(line.as_str());
            },
            HeaderError::DuplicateKey { name } => {
                proof {
                    reveal_strlit("Header collection already contains key \"");
                    reveal_strlit("\"!");
                }
                s.append("Header collection already contains key \"");
                s.append(name.as_str());
                s.append("\"!");
            },
        }
        proof {
            assert(s@ =~= header_error_text(self@));
        }
        s
    }
}

/// The position one past the last non-space character before `i`.
pub open spec fn trim_end_idx(s: Seq<char>, i: int) -> int
    decreases i,
{
    if 0 < i <= s.len() && is_space(s[i - 1]) {
        trim_end_idx(s, i - 1)
    } else {
        i
    }
}

/// The line with its leading and trailing spacing characters removed.
pub open spec fn spec_trim(s: Seq<char>) -> Seq<char> {
    let a = skip_ws(s, 0);
    let b = trim_end_idx(s, s.len() as int);
    if a >= b {
        Seq::empty()
    } else {
        s.subrange(a, b)
    }
}

/// The first position at or after `i` where the two-character separator
/// `": "` begins, or the length where there is none.
pub open spec fn find_sep(s: Seq<char>, i: int) -> int
    decreases s.len() - i,
{
    if !(0 <= i) {
        s.len() as int
    } else if i + 1 >= s.len() {
        s.len() as int
    } else if s[i] == ':' && s[i + 1] == ' ' {
        i
    } else {
        find_sep(s, i + 1)
    }
}

/// The first entry at or after `i` named `name`, or the length.
pub open spec fn header_index(hs: Seq<HeaderV>, name: Seq<char>, i: int) -> int
    decreases hs.len() - i,
{
    if !(0 <= i < hs.len()) {
        hs.len() as int
    } else if hs[i].name == name {
        i
    } else {
        header_index(hs, name, i + 1)
    }
}

/// What one header line denotes: its fault, or the name and value it
/// binds. The name is the text before the first `": "` of the trimmed
/// line; the value is the text from there to the next `": "` or the
/// end.
pub open spec fn spec_header_parts(line: Seq<char>) -> Result<HeaderV, HeaderErrorV> {
    let t = spec_trim(line);
    let k = find_sep(t, 0);
    if k == 0 {
        Err(HeaderErrorV::NoName { line })
    } else if k >= t.len() {
        Err(HeaderErrorV::NoValue { line })
    } else {
        Ok(HeaderV { name: t.take(k), value: t.subrange(k + 2, find_sep(t, k + 2)) })
    }
}

/// A collection of header lines: names bound to values, each name at
/// most once.
#[derive(Debug)]
pub struct HeaderCollection {
    entries: Vec<HeaderEntry>,
}

impl View for HeaderCollection {
    type V = Seq<HeaderV>;

    closed spec fn view(&self) -> Seq<HeaderV> {
        self.entries.deep_view()
    }
}

impl HeaderCollection {
    /// An empty collection.
    pub fn new() -> (r: HeaderCollection)
        ensures
            r@ == Seq::<HeaderV>::empty(),
    {
        let r = HeaderCollection { entries: Vec::new() };
        proof {
            assert(r@ =~= Seq::<HeaderV>::empty());
        }
        r
    }

    /// Adds one header line. The line is trimmed and split at its first
    /// `": "`; an empty name, a missing separator, or a name already
    /// bound is a fault that leaves the collection unchanged.
    #[verifier::loop_isolation(false)]
    pub fn add(&mut self, line: &str) -> (r: Result<(), HeaderError>)
        ensures
            match spec_header_parts(line@) {
                Ok(h) => if header_index(old(self)@, h.name, 0) < old(self)@.len() {
                    r is Err && r->Err_0@ == HeaderErrorV::DuplicateKey { name: h.name } && final(self)@ == old(self)@
                } else {
                    r is Ok && final(self)@ == old(self)@.push(h)
                },
                Err(ev) => r is Err && r->Err_0@ == ev && final(self)@ == old(self)@,
            },
    {
        let ghost hv = self@;
        let n = line.unicode_len();
        // Trim the spacing from both ends.
        let mut b = n;
        while b > 0 && is_space_at(line, b - 1)
            invariant
                0 <= b <= n,
                n == line@.len(),
                trim_end_idx(line@, n as int) == trim_end_idx(line@, b as int),
            decreases b,
        {
            proof {
                assert(trim_end_idx(line@, b as int) == trim_end_idx(line@, b - 1));
            }
            b -= 1;
        }
        proof {
            assert(trim_end_idx(line@, b as int) == b);
        }
        let mut a: usize = 0;
        while a < n && is_space_at(line, a)
            invariant
                0 <= a <= n,
                n == line@.len(),
                skip_ws(line@, 0) == skip_ws(line@, a as int),
            decreases n - a,
        {
            proof {
                assert(skip_ws(line@, a as int) == skip_ws(line@, a + 1));
            }
            a += 1;
        }
        proof {
            assert(skip_ws(line@, a as int) == a);
        }
        let t: String = if a >= b {
            String::new()
        } else {
            line.substring_char(a, b).to_owned()
        };
        proof {
            assert(t@ =~= spec_trim(line@));
        }
        let ghost tv = spec_trim(line@);
        let tn = t.as_str().unicode_len();
        // Find the first ": " separator.
        let mut k: usize = 0;
        while tn - k > 1 && !(t.as_str().get_char(k) == ':' && t.as_str().get_char(k + 1) == ' ')
            invariant
                0 <= k <= tn,
                tn == tv.len(),
                t@ == tv,
                find_sep(tv, 0) == find_sep(tv, k as int),
            decreases tn - k,
        {
            proof {
                assert(find_sep(tv, k as int) == find_sep(tv, k + 1));
            }
            k += 1;
        }
        let sep_found = tn - k > 1;
        proof {
            assert(find_sep(tv, k as int) == (if sep_found {
                k as int
            } else {
                tv.len() as int
            }));
        }
        let sep = if sep_found {
            k
        } else {
            tn
        };
        if sep == 0 {
            return Err(HeaderError::NoName { line: line.to_owned() });
        }
        if !sep_found {
            return Err(HeaderError::NoValue { line: line.to_owned() });
        }
        let name = t.as_str().substring_char(0, sep).to_owned();
        proof {
            assert(name@ =~= tv.take(sep as int));
        }
        // Refuse a name that is already bound.
        let ghost nmv = name@;
        let en = self.entries.len();
        let mut i: usize = 0;
        while i < en
            invariant
                0 <= i <= en,
                header_index(hv, nmv, 0) == header_index(hv, nmv, i as int),
            decreases en - i,
        {
            proof {
                assert(hv[i as int] == self.entries@[i as int].deep_view());
            }
            if str_eq(self.entries[i].name.as_str(), name.as_str()) {
                proof {
                    assert(header_index(hv, nmv, i as int) == i);
                }
                return Err(HeaderError::DuplicateKey { name });
            }
            proof {
                assert(header_index(hv, nmv, i as int) == header_index(hv, nmv, i + 1));
            }
            i += 1;
        }
        proof {
            assert(header_index(hv, nmv, en as int) == en);
        }
        // The value runs from past the separator to the next one.
        let mut k2: usize = sep + 2;
        while tn - k2 > 1 && !(t.as_str().get_char(k2) == ':' && t.as_str().get_char(k2 + 1) == ' ')
            invariant
                sep + 2 <= k2 <= tn,
                tn == tv.len(),
                t@ == tv,
                find_sep(tv, sep + 2) == find_sep(tv, k2 as int),
            decreases tn - k2,
        {
            proof {
                assert(find_sep(tv, k2 as int) == find_sep(tv, k2 + 1));
            }
            k2 += 1;
        }
        let sep2 = if tn - k2 > 1 {
            k2
        } else {
            tn
        };
        proof {
            assert(find_sep(tv, sep + 2) == sep2);
        }
        let value = t.as_str().substring_char(sep + 2, sep2).to_owned();
        proof {
            assert(value@ =~= tv.subrange(sep + 2, find_sep(tv, sep + 2)));
        }
        self.entries.push(HeaderEntry { name, value });
        proof {
            assert(self@ =~= hv.push(spec_header_parts(line@)->Ok_0));
        }
        Ok(())
    }

    /// The value bound to `name`, if any.
    #[verifier::loop_isolation(false)]
    pub fn get(&self, name: &str) -> (r: Option<String>)
        ensures
            header_index(self@, name@, 0) < self@.len() ==> r is Some && r->0@ == self@[
                header_index(self@, name@, 0)
            ].value,
            header_index(self@, name@, 0) >= self@.len() ==> r is None,
    {
        let ghost hv = self@;
        let en = self.entries.len();
        let mut i: usize = 0;
        while i < en
            invariant
                0 <= i <= en,
                header_index(hv, name@, 0) == header_index(hv, name@, i as int),
            decreases en - i,
        {
            proof {
                assert(hv[i as int] == self.entries@[i as int].deep_view());
            }
            if str_eq(self.entries[i].name.as_str(), name) {
                proof {
                    assert(header_index(hv, name@, i as int) == i);
                }
                return Some(self.entries[i].value.clone());
            }
            proof {
                assert(header_index(hv, name@, i as int) == header_index(hv, name@, i + 1));
            }
            i += 1;
        }
        proof {
            assert(header_index(hv, name@, en as int) == en);
        }
        None
    }

    /// Removes every header.
    pub fn clear(&mut self)
        ensures
            final(self)@ == Seq::<HeaderV>::empty(),
    {
        self.entries.clear();
        proof {
            assert(self@ =~= Seq::<HeaderV>::empty());
        }
    }
}

/// True of the character at `i` exactly when it is spacing.
fn is_space_at(s: &str, i: usize) -> (r: bool)
    requires
        i < s@.len(),
    ensures
        r == is_space(s@[i as int]),
{
    let c = s.get_char(i);
    c == ' ' || c == '\t' || c == '\r' || c == '\n' || c == '\u{B}' || c == '\u{C}'
}

} // verus!
