//! A server's advertised capability set: a read-only mapping from capability
//! name to an optional value, parsed from either wire shape — the flat,
//! NUL-introduced list of protocol V1 or the line-oriented `name=value`
//! advertisement of protocol V2.

use vstd::prelude::*;

use crate::strutil::{
    find_char, drop_empty, spec_find, spec_split, split_all, str_eq, views_of,
};

verus! {

/// The wire protocol negotiated for the session, fixed at handshake time.
#[derive(Debug, Clone, Copy, PartialEq, Eq)]
pub enum Protocol {
    V1,
    V2,
}

/// Mathematical view of one advertised capability.
pub ghost struct CapView {
    pub name: Seq<char>,
    pub value: Option<Seq<char>>,
}

/// One advertised capability: a name with an optional value.
#[derive(Debug, PartialEq, Eq)]
pub struct Capability {
    pub name: String,
    pub value: Option<String>,
}

impl View for Capability {
    type V = CapView;

    open spec fn view(&self) -> CapView {
        CapView {
            name: self.name@,
            value: match self.value {
                Some(v) => Some(v@),
                None => None,
            },
        }
    }
}

/// The capability read out of one wire token: the part before the first
/// `=` is the name, the part after it the value; a token without `=` is a
/// valueless capability.
pub open spec fn cap_of_token(t: Seq<char>) -> CapView {
    match spec_find(t, '=') {
        None => CapView { name: t, value: None },
        Some(i) => CapView { name: t.take(i), value: Some(t.skip(i + 1)) },
    }
}

/// The capabilities read out of a token list.
pub open spec fn caps_of_tokens(tokens: Seq<Seq<char>>) -> Seq<CapView> {
    tokens.map_values(|t: Seq<char>| cap_of_token(t))
}

/// True iff a capability of this name was advertised.
pub open spec fn caps_has(caps: Seq<CapView>, name: Seq<char>) -> bool {
    exists|i: int| 0 <= i < caps.len() && caps[i].name == name
}

/// The value of the first capability of this name: `None` when the name is
/// absent, and also when it is advertised without a value.
pub open spec fn caps_value(caps: Seq<CapView>, name: Seq<char>) -> Option<Seq<char>>
    decreases caps.len(),
{
    if caps.len() == 0 {
        None
    } else if caps[0].name == name {
        caps[0].value
    } else {
        caps_value(caps.skip(1), name)
    }
}

/// What a V1 advertisement parses to: everything after the first NUL byte,
/// split on spaces, each non-empty token one capability. `None` when no NUL
/// is present.
pub open spec fn spec_parse_v1(s: Seq<char>) -> Option<Seq<CapView>> {
    match spec_find(s, '\0') {
        None => None,
        Some(i) => Some(caps_of_tokens(drop_empty(spec_split(s.skip(i + 1), ' ')))),
    }
}

/// What a V2 advertisement parses to: a leading `version 2` marker line,
/// then one capability per non-empty line. `None` when the marker line is
/// missing.
pub open spec fn spec_parse_v2(s: Seq<char>) -> Option<Seq<CapView>> {
    let lines = spec_split(s, '\n');
    if lines[0] == "version 2"@ {
        Some(caps_of_tokens(drop_empty(lines.skip(1))))
    } else {
        None
    }
}

/// Why an advertisement was rejected.
#[derive(Debug, Clone, Copy, PartialEq, Eq)]
pub enum ParseError {
    /// A V1 advertisement carries its capabilities after a NUL byte; none
    /// was found.
    MissingDelimitingNullByte,
    /// A V2 advertisement must open with a `version 2` marker line.
    MissingVersionLine,
}

/// A server's advertised capability set, in advertisement order.
#[derive(Debug, PartialEq, Eq)]
pub struct Capabilities {
    pub entries: Vec<Capability>,
}

impl View for Capabilities {
    type V = Seq<CapView>;

    open spec fn view(&self) -> Seq<CapView> {
        self.entries@.map_values(|c: Capability| c@)
    }
}

/// The capabilities of the non-empty tokens of `tokens`.
fn caps_from_tokens(tokens: Vec<String>) -> (r: Vec<Capability>)
    ensures
        r@.map_values(|c: Capability| c@) == caps_of_tokens(drop_empty(views_of(tokens@))),
{
    let mut out: Vec<Capability> = Vec::new();
    let tokens_len = tokens.len();
    let mut idx: usize = 0;
    while idx < tokens_len
        invariant
            tokens_len == tokens@.len(),
            idx <= tokens_len,
            out@.map_values(|c: Capability| c@) == caps_of_tokens(
                drop_empty(views_of(tokens@.take(idx as int))),
            ),
        decreases tokens_len - idx,
    {
        let ghost prev_caps = out@.map_values(|c: Capability| c@);
        let token: &String = &tokens[idx];
        let token_len = token.as_str().unicode_len();
        if token_len > 0 {
            let cap: Capability = match find_char(token.as_str(), '=') {
                None => Capability { name: token.as_str().to_owned(), value: None },
                Some(i) => {
                    proof {
                        crate::strutil::lemma_spec_find(token@, '=');
                    }
                    Capability {
                        name: token.as_str().substring_char(0, i).to_owned(),
                        value: Some(
                            token.as_str().substring_char(i + 1, token_len).to_owned(),
                        ),
                    }
                },
            };
            proof {
                assert(cap@.name =~= cap_of_token(token@).name);
                match cap_of_token(token@).value {
                    Some(v) => {
                        assert(cap@.value matches Some(w) && w =~= v);
                    },
                    None => {
                        assert(cap@.value is None);
                    },
                }
                assert(cap@ == cap_of_token(token@));
            }
            out.push(cap);
        }
        idx = idx + 1;
        proof {
            reveal(Seq::filter);
            let pre = views_of(tokens@.take(idx - 1));
            let now = views_of(tokens@.take(idx as int));
            assert(now.drop_last() =~= pre);
            assert(now.last() == tokens@[idx - 1]@);
            if token_len > 0 {
                assert(drop_empty(now) =~= drop_empty(pre).push(token@));
                assert(out@.map_values(|c: Capability| c@) =~= prev_caps.push(
                    cap_of_token(token@),
                ));
                assert(caps_of_tokens(drop_empty(now)) =~= caps_of_tokens(
                    drop_empty(pre),
                ).push(cap_of_token(token@)));
            } else {
                assert(drop_empty(now) =~= drop_empty(pre));
                assert(caps_of_tokens(drop_empty(now)) =~= caps_of_tokens(drop_empty(pre)));
            }
        }
    }
    proof {
        assert(tokens@.take(tokens_len as int) =~= tokens@);
    }
    out
}

impl Capabilities {
    /// Parses a V1 advertisement: the capabilities stand after the first
    /// NUL byte, separated by spaces.
    pub fn from_bytes(input: &str) -> (r: Result<Capabilities, ParseError>)
        ensures
            match r {
                Ok(caps) => spec_parse_v1(input@) == Some(caps@),
                Err(e) => spec_parse_v1(input@) is None && e == ParseError::MissingDelimitingNullByte,
            },
    {
        match find_char(input, '\0') {
            None => Err(ParseError::MissingDelimitingNullByte),
            Some(i) => {
                proof {
                    crate::strutil::lemma_spec_find(input@, '\0');
                }
                let input_len = input.unicode_len();
                let tail = input.substring_char(i + 1, input_len);
                proof {
                    assert(tail@ =~= input@.skip(i + 1));
                }
                let tokens = split_all(tail, ' ');
                Ok(Capabilities { entries: caps_from_tokens(tokens) })
            },
        }
    }

    /// Parses a V2 advertisement: a `version 2` marker line, then one
    /// `name=value` capability per line.
    pub fn from_lines(input: &str) -> (r: Result<Capabilities, ParseError>)
        ensures
            match r {
                Ok(caps) => spec_parse_v2(input@) == Some(caps@),
                Err(e) => spec_parse_v2(input@) is None && e == ParseError::MissingVersionLine,
            },
    {
        let mut lines = split_all(input, '\n');
        proof {
            crate::strutil::lemma_split_len(input@, '\n');
            assert(views_of(lines@)[0] == lines@[0]@);
        }
        let first: String = lines.remove(0);
        if !str_eq(first.as_str(), "version 2") {
            return Err(ParseError::MissingVersionLine);
        }
        proof {
            assert(views_of(lines@) =~= spec_split(input@, '\n').skip(1));
        }
        Ok(Capabilities { entries: caps_from_tokens(lines) })
    }

    /// True iff a capability of this name was advertised.
    pub fn contains(&self, name: &str) -> (r: bool)
        ensures
            r == caps_has(self@, name@),
    {
        let n = self.entries.len();
        let mut i: usize = 0;
        while i < n
            invariant
                n == self.entries@.len(),
                i <= n,
                forall|j: int| 0 <= j < i ==> self@[j].name != name@,
            decreases n - i,
        {
            if str_eq(self.entries[i].name.as_str(), name) {
                assert(self@[i as int].name == name@);
                return true;
            }
            i = i + 1;
        }
        false
    }

    /// The value of the first capability of this name, if the name was
    /// advertised with one.
    pub fn value_of(&self, name: &str) -> (r: Option<String>)
        ensures
            match r {
                Some(v) => caps_value(self@, name@) == Some(v@),
                None => caps_value(self@, name@) is None,
            },
    {
        let n = self.entries.len();
        let mut i: usize = 0;
        proof {
            assert(self@.skip(0) =~= self@);
        }
        while i < n
            invariant
                n == self.entries@.len(),
                i <= n,
                caps_value(self@, name@) == caps_value(self@.skip(i as int), name@),
                forall|j: int| 0 <= j < i ==> self@[j].name != name@,
            decreases n - i,
        {
            let ghost pre = self@.skip(i as int);
            if str_eq(self.entries[i].name.as_str(), name) {
                assert(pre[0].name == name@);
                match &self.entries[i].value {
                    Some(v) => {
                        return Some(v.as_str().to_owned());
                    },
                    None => {
                        return None;
                    },
                }
            }
            i = i + 1;
            proof {
                assert(pre[0].name != name@);
                assert(pre.skip(1) =~= self@.skip(i as int));
            }
        }
        proof {
            assert(self@.skip(n as int) =~= Seq::<CapView>::empty());
        }
        None
    }
}

} // verus!
