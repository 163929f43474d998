//! Run configuration: the command-line settings a run is started with, the
//! fuzzing mode, the fatal start-up errors, and the verified parsers for the
//! comma-separated status-code and ignore-length lists.

use vstd::prelude::*;
use crate::text::{
    contains_str, parse_u16, parse_u64, spec_find, spec_parse_u16, spec_parse_u64, spec_split,
    split_str, starts_with_str,
};

verus! {

/// The strategy for turning a word into a candidate request URL: append it
/// to the base URL as a path segment, or substitute it for the `{!}`
/// placeholder in the base URL.
#[derive(Clone, Copy, Debug, PartialEq, Eq, Structural)]
pub enum Fuzz {
    DirectoryPath,
    Parameter,
}

/// A fatal start-up error: each aborts the run before any worker is spawned.
#[derive(Clone, Copy, Debug, PartialEq, Eq, Structural)]
pub enum FuzzError {
    /// The wordlist head splits on neither a CRLF nor an LF delimiter.
    MalformedWordlist,
    /// The base URL starts with neither `http://` nor `https://`.
    BadUrlScheme,
    /// Parameter mode was chosen but the base URL holds no `{!}` placeholder.
    MissingPlaceholder,
    /// An entry of the accepted status-code list is not a decimal number
    /// that fits in 16 bits.
    BadStatusCode,
    /// An entry of the suppressed-length list is not a decimal number that
    /// fits in 64 bits.
    BadLengthValue,
}

/// The settings of one run, created once from command-line input and then
/// only read. Every worker shares one instance by reference.
#[derive(Clone, Debug)]
pub struct SodaArgs {
    /// Base URL of every request.
    pub url: String,
    /// Path of the wordlist file.
    pub wordlist: String,
    /// How a word becomes a candidate URL.
    pub fuzz: Fuzz,
    /// Show extra diagnostics.
    pub debug: bool,
    /// Print every response, whatever its classification.
    pub verbose: bool,
    /// Print each response body.
    pub htmlbody: bool,
    /// Do not print request timeout errors.
    pub no_timeout_errs: bool,
    /// Comma-separated extension list, meaningful in directory-path mode.
    pub ext: Option<String>,
    /// Output file path; when set, reported responses are logged to it.
    pub output: Option<String>,
    /// Comma-separated accepted status codes; empty means "just 200".
    pub status_codes: Option<String>,
    /// Comma-separated response body lengths to suppress.
    pub ignore_len: Option<String>,
    /// Per-request timeout in milliseconds.
    pub timeout: u64,
    /// Worker count; 0 runs every chunk on the calling thread.
    pub threads: usize,
}

/// The characters of `http://`.
pub open spec fn http_prefix() -> Seq<char> {
    seq!['h', 't', 't', 'p', ':', '/', '/']
}

/// The characters of `https://`.
pub open spec fn https_prefix() -> Seq<char> {
    seq!['h', 't', 't', 'p', 's', ':', '/', '/']
}

/// The `{!}` placeholder substituted in parameter mode.
pub open spec fn param_token() -> Seq<char> {
    seq!['{', '!', '}']
}

/// The URL begins with an accepted scheme.
pub open spec fn spec_url_scheme_ok(url: Seq<char>) -> bool {
    ||| (http_prefix().len() <= url.len() && url.subrange(0, http_prefix().len() as int)
        == http_prefix())
    ||| (https_prefix().len() <= url.len() && url.subrange(0, https_prefix().len() as int)
        == https_prefix())
}

/// The base URL as the run uses it: in directory-path mode a trailing slash
/// is appended when missing, otherwise the URL is kept as given.
pub open spec fn spec_normalized_url(url: Seq<char>, fuzz: Fuzz) -> Seq<char> {
    if fuzz is DirectoryPath && (url.len() == 0 || url.last() != '/') {
        url.push('/')
    } else {
        url
    }
}

/// The comma-separated pieces of the extension option: empty when no
/// extensions are configured.
pub open spec fn spec_extensions(ext: Option<String>) -> Seq<Seq<char>> {
    match ext {
        Some(e) => if e@.len() == 0 {
            Seq::<Seq<char>>::empty()
        } else {
            spec_split(e@, seq![','])
        },
        None => Seq::<Seq<char>>::empty(),
    }
}

/// The accepted status codes denoted by the pieces `pieces[i..]`: `None`
/// when some piece fails to parse, otherwise the parsed codes in order,
/// keeping only those in the valid HTTP range 100..=999.
pub open spec fn spec_codes_from(pieces: Seq<Seq<char>>, i: int) -> Option<Seq<u16>>
    decreases pieces.len() - i,
{
    if i < 0 || i >= pieces.len() {
        Some(Seq::<u16>::empty())
    } else {
        match (spec_parse_u16(pieces[i]), spec_codes_from(pieces, i + 1)) {
            (Some(v), Some(rest)) => if 100 <= v <= 999 {
                Some(seq![v] + rest)
            } else {
                Some(rest)
            },
            _ => None,
        }
    }
}

/// The accepted status-code set denoted by the option text: the empty set
/// when no text was given, otherwise the comma-separated pieces parsed as
/// 16-bit numbers and filtered to the valid HTTP range.
pub open spec fn spec_status_codes(codes: Option<String>) -> Option<Seq<u16>> {
    match codes {
        Some(c) => if c@.len() == 0 {
            Some(Seq::<u16>::empty())
        } else {
            spec_codes_from(spec_split(c@, seq![',']), 0)
        },
        None => Some(Seq::<u16>::empty()),
    }
}

/// The suppressed lengths denoted by the pieces `pieces[i..]`: `None` when
/// some piece fails to parse, otherwise the parsed values in order.
pub open spec fn spec_lengths_from(pieces: Seq<Seq<char>>, i: int) -> Option<Seq<u64>>
    decreases pieces.len() - i,
{
    if i < 0 || i >= pieces.len() {
        Some(Seq::<u64>::empty())
    } else {
        match (spec_parse_u64(pieces[i]), spec_lengths_from(pieces, i + 1)) {
            (Some(v), Some(rest)) => Some(seq![v] + rest),
            _ => None,
        }
    }
}

/// The suppressed-length set denoted by the option text.
pub open spec fn spec_length_values(lens: Option<String>) -> Option<Seq<u64>> {
    match lens {
        Some(l) => if l@.len() == 0 {
            Some(Seq::<u64>::empty())
        } else {
            spec_lengths_from(spec_split(l@, seq![',']), 0)
        },
        None => Some(Seq::<u64>::empty()),
    }
}

impl SodaArgs {
    /// Whether splitting `split_string` on `pattern` yields more than one
    /// piece, which is how a candidate newline delimiter is probed.
    pub fn check_correct_split(&self, split_string: String, pattern: &str) -> (r: bool)
        ensures
            r <==> spec_split(split_string@, pattern@).len() > 1,
    {
        let parts = split_str(split_string.as_str(), pattern);
        parts.len() > 1
    }

    /// The accepted status codes of this run, parsed from the
    /// comma-separated option text. An entry that is not a 16-bit decimal
    /// number is a fatal error; entries outside the valid HTTP range
    /// 100..=999 are dropped.
    pub fn get_status_codes(&self) -> (r: Result<Vec<u16>, FuzzError>)
        ensures
            match spec_status_codes(self.status_codes) {
                Some(v) => r is Ok && r->Ok_0@ == v,
                None => r == Result::<Vec<u16>, FuzzError>::Err(FuzzError::BadStatusCode),
            },
    {
        let mut out: Vec<u16> = Vec::new();
        let text = match &self.status_codes {
            Some(c) => c.as_str(),
            None => {
                return Ok(out);
            },
        };
        if text.unicode_len() == 0 {
            return Ok(out);
        }
        let pieces = split_str(text, ",");
        proof {
            reveal_strlit(",");
            assert(","@ =~= seq![',']);
        }
        let ghost ps = pieces.deep_view();
        let mut i: usize = 0;
        while i < pieces.len()
            invariant
                i <= pieces.len(),
                ps == pieces.deep_view(),
                self.status_codes is Some,
                self.status_codes->0@.len() != 0,
                ps == spec_split(self.status_codes->0@, seq![',']),
                match spec_codes_from(ps, i as int) {
                    Some(rest) => spec_codes_from(ps, 0) == Some(out@ + rest),
                    None => spec_codes_from(ps, 0) is None,
                },
            decreases pieces.len() - i,
        {
            let ghost prev = out@;
            proof {
                assert(ps[i as int] == pieces@[i as int]@);
            }
            match parse_u16(pieces[i].as_str()) {
                Some(v) => {
                    if 100 <= v && v <= 999 {
                        out.push(v);
                        proof {
                            if spec_codes_from(ps, i + 1) is Some {
                                let rest = spec_codes_from(ps, i + 1)->0;
                                assert(spec_codes_from(ps, i as int) == Some(seq![v] + rest));
                                assert(prev + (seq![v] + rest) =~= (prev + seq![v]) + rest);
                                assert(out@ =~= prev + seq![v]);
                            }
                        }
                    }
                },
                None => {
                    proof {
                        assert(spec_codes_from(ps, i as int) is None);
                    }
                    return Err(FuzzError::BadStatusCode);
                },
            }
            i = i + 1;
        }
        proof {
            assert(spec_codes_from(ps, i as int) == Some(Seq::<u16>::empty()));
            assert(out@ + Seq::<u16>::empty() =~= out@);
        }
        Ok(out)
    }

    /// The suppressed response-body lengths of this run, parsed from the
    /// comma-separated option text. An entry that is not a 64-bit decimal
    /// number is a fatal error.
    pub fn get_length_values(&self) -> (r: Result<Vec<u64>, FuzzError>)
        ensures
            match spec_length_values(self.ignore_len) {
                Some(v) => r is Ok && r->Ok_0@ == v,
                None => r == Result::<Vec<u64>, FuzzError>::Err(FuzzError::BadLengthValue),
            },
    {
        let mut out: Vec<u64> = Vec::new();
        let text = match &self.ignore_len {
            Some(l) => l.as_str(),
            None => {
                return Ok(out);
            },
        };
        if text.unicode_len() == 0 {
            return Ok(out);
        }
        let pieces = split_str(text, ",");
        proof {
            reveal_strlit(",");
            assert(","@ =~= seq![',']);
        }
        let ghost ps = pieces.deep_view();
        let mut i: usize = 0;
        while i < pieces.len()
            invariant
                i <= pieces.len(),
                ps == pieces.deep_view(),
                self.ignore_len is Some,
                self.ignore_len->0@.len() != 0,
                ps == spec_split(self.ignore_len->0@, seq![',']),
                match spec_lengths_from(ps, i as int) {
                    Some(rest) => spec_lengths_from(ps, 0) == Some(out@ + rest),
                    None => spec_lengths_from(ps, 0) is None,
                },
            decreases pieces.len() - i,
        {
            let ghost prev = out@;
            proof {
                assert(ps[i as int] == pieces@[i as int]@);
            }
            match parse_u64(pieces[i].as_str()) {
                Some(v) => {
                    out.push(v);
                    proof {
                        if spec_lengths_from(ps, i + 1) is Some {
                            let rest = spec_lengths_from(ps, i + 1)->0;
                            assert(spec_lengths_from(ps, i as int) == Some(seq![v] + rest));
                            assert(prev + (seq![v] + rest) =~= (prev + seq![v]) + rest);
                            assert(out@ =~= prev + seq![v]);
                        }
                    }
                },
                None => {
                    proof {
                        assert(spec_lengths_from(ps, i as int) is None);
                    }
                    return Err(FuzzError::BadLengthValue);
                },
            }
            i = i + 1;
        }
        proof {
            assert(spec_lengths_from(ps, i as int) == Some(Seq::<u64>::empty()));
            assert(out@ + Seq::<u64>::empty() =~= out@);
        }
        Ok(out)
    }

    /// The comma-separated extension list of this run, empty when the
    /// option was not given or holds no text.
    pub fn extension_list(&self) -> (r: Vec<String>)
        ensures
            r.deep_view() == spec_extensions(self.ext),
    {
        match &self.ext {
            Some(e) => {
                if e.as_str().unicode_len() == 0 {
                    let r: Vec<String> = Vec::new();
                    proof {
                        assert(r.deep_view() =~= spec_extensions(self.ext));
                    }
                    r
                } else {
                    let r = split_str(e.as_str(), ",");
                    proof {
                        reveal_strlit(",");
                        assert(","@ =~= seq![',']);
                    }
                    r
                }
            },
            None => {
                let r: Vec<String> = Vec::new();
                proof {
                    assert(r.deep_view() =~= spec_extensions(self.ext));
                }
                r
            },
        }
    }

    /// The base URL as every candidate is built from it: rejected when it
    /// starts with neither `http://` nor `https://`, given a trailing slash
    /// in directory-path mode, rejected in parameter mode when it holds no
    /// `{!}` placeholder.
    pub fn normalize_url(&self) -> (r: Result<String, FuzzError>)
        ensures
            !spec_url_scheme_ok(self.url@) ==> r == Result::<String, FuzzError>::Err(
                FuzzError::BadUrlScheme,
            ),
            spec_url_scheme_ok(self.url@) && self.fuzz is Parameter && spec_find(
                self.url@,
                param_token(),
                0,
            ) < 0 ==> r == Result::<String, FuzzError>::Err(FuzzError::MissingPlaceholder),
            spec_url_scheme_ok(self.url@) && (self.fuzz is DirectoryPath || spec_find(
                self.url@,
                param_token(),
                0,
            ) >= 0) ==> r is Ok && r->Ok_0@ == spec_normalized_url(self.url@, self.fuzz),
    {
        let url = self.url.as_str();
        proof {
            reveal_strlit("http://");
            reveal_strlit("https://");
            reveal_strlit("{!}");
            reveal_strlit("/");
            assert("http://"@ =~= http_prefix());
            assert("https://"@ =~= https_prefix());
            assert("{!}"@ =~= param_token());
            assert("/"@ =~= seq!['/']);
        }
        if !starts_with_str(url, "http://") && !starts_with_str(url, "https://") {
            return Err(FuzzError::BadUrlScheme);
        }
        match self.fuzz {
            Fuzz::Parameter => {
                if !contains_str(url, "{!}") {
                    return Err(FuzzError::MissingPlaceholder);
                }
                Ok(url.to_owned())
            },
            Fuzz::DirectoryPath => {
                let n = url.unicode_len();
                if n == 0 || url.get_char(n - 1) != '/' {
                    let mut out = url.to_owned();
                    out.append("/");
                    proof {
                        assert(out@ =~= self.url@.push('/'));
                    }
                    Ok(out)
                } else {
                    Ok(url.to_owned())
                }
            },
        }
    }
}

} // verus!
