use vstd::prelude::*;
use vstd::string::to_string_from_display_ensures;

verus! {

/// The kind of failure an operation reports.
#[derive(Clone, Copy, Debug, PartialEq, Eq, Structural)]
pub enum ErrorCode {
    Tech,
    User,
    NotFound,
}

/// The note an error carries when it is made with an empty one.
pub open spec fn default_note(code: ErrorCode) -> Seq<char> {
    match code {
        ErrorCode::Tech => "A technical issue occured. Please try again later."@,
        ErrorCode::User => "An issue occured due to your input."@,
        ErrorCode::NotFound => "The information you seek was not found."@,
    }
}

pub open spec fn keys_unique(e: Seq<(String, String)>) -> bool {
    forall|i: int, j: int|
        0 <= i < e.len() && 0 <= j < e.len() && i != j ==> (#[trigger] e[i]).0@ != (
        #[trigger] e[j]).0@
}

pub open spec fn has_key_at(e: Seq<(String, String)>, k: Seq<char>, i: int) -> bool {
    0 <= i < e.len() && e[i].0@ == k
}

/// The key/value pairs of `e` as a map.
pub open spec fn entries_map(e: Seq<(String, String)>) -> Map<Seq<char>, Seq<char>> {
    Map::new(
        |k: Seq<char>| exists|i: int| has_key_at(e, k, i),
        |k: Seq<char>| e[choose|i: int| has_key_at(e, k, i)].1@,
    )
}

proof fn lemma_entries_map_at(e: Seq<(String, String)>, i: int)
    requires
        keys_unique(e),
        0 <= i < e.len(),
    ensures
        entries_map(e).contains_key(e[i].0@),
        entries_map(e)[e[i].0@] == e[i].1@,
{
    let k = e[i].0@;
    assert(has_key_at(e, k, i));
    let c = choose|c: int| has_key_at(e, k, c);
    assert(c == i);
}

proof fn lemma_entries_map_push(e: Seq<(String, String)>, kv: (String, String))
    requires
        keys_unique(e),
        !entries_map(e).contains_key(kv.0@),
    ensures
        keys_unique(e.push(kv)),
        entries_map(e.push(kv)) == entries_map(e).insert(kv.0@, kv.1@),
{
    let e2 = e.push(kv);
    assert forall|i: int| 0 <= i < e.len() implies e[i].0@ != kv.0@ by {
        if e[i].0@ == kv.0@ {
            assert(has_key_at(e, kv.0@, i));
        }
    }
    assert(keys_unique(e2)) by {
        assert forall|i: int, j: int|
            0 <= i < e2.len() && 0 <= j < e2.len() && i != j implies (#[trigger] e2[i]).0@ != (
            #[trigger] e2[j]).0@ by {
            if i < e.len() && j < e.len() {
                assert(e2[i] == e[i] && e2[j] == e[j]);
            } else if i < e.len() {
                assert(e2[i] == e[i]);
            } else {
                assert(e2[j] == e[j]);
            }
        }
    }
    lemma_entries_map_same(e, e2, kv, e.len() as int);
}

/// `e2` is `e` with the entry at `j` set to `kv`, or with `kv` added at `j == e.len()`.
proof fn lemma_entries_map_same(
    e: Seq<(String, String)>,
    e2: Seq<(String, String)>,
    kv: (String, String),
    j: int,
)
    requires
        keys_unique(e),
        keys_unique(e2),
        0 <= j <= e.len(),
        e2.len() == if j == e.len() {
            e.len() + 1
        } else {
            e.len() + 0
        },
        e2[j] == kv,
        j < e.len() ==> e[j].0@ == kv.0@,
        forall|i: int| 0 <= i < e.len() && i != j ==> e2[i] == e[i],
    ensures
        entries_map(e2) == entries_map(e).insert(kv.0@, kv.1@),
{
    let m = entries_map(e).insert(kv.0@, kv.1@);
    let m2 = entries_map(e2);
    assert forall|q: Seq<char>| #[trigger] m2.contains_key(q) <==> m.contains_key(q) by {
        if m2.contains_key(q) {
            let i = choose|i: int| has_key_at(e2, q, i);
            if i != j {
                assert(has_key_at(e, q, i));
            }
        }
        if m.contains_key(q) && q != kv.0@ {
            let i = choose|i: int| has_key_at(e, q, i);
            assert(has_key_at(e2, q, i));
        }
        if q == kv.0@ {
            assert(has_key_at(e2, q, j));
        }
    }
    assert forall|q: Seq<char>| #[trigger] m2.contains_key(q) implies m2[q] == m[q] by {
        let i = choose|i: int| has_key_at(e2, q, i);
        lemma_entries_map_at(e2, i);
        if i == j {
            assert(q == kv.0@);
        } else {
            assert(e2[i] == e[i]);
            lemma_entries_map_at(e, i);
            if q == kv.0@ {
                assert(e2[j].0@ == e2[i].0@);
            }
        }
    }
    assert(m2 =~= m);
}

/// An error of one of three kinds, with a note for people and metadata, a map
/// from keys to values, for diagnosis.
#[derive(Clone, Debug)]
pub struct Error {
    code: ErrorCode,
    note: String,
    meta: Vec<(String, String)>,
}

impl Error {
    pub closed spec fn wf(&self) -> bool {
        keys_unique(self.meta@)
    }

    pub closed spec fn code_of(&self) -> ErrorCode {
        self.code
    }

    pub closed spec fn note_of(&self) -> Seq<char> {
        self.note@
    }

    pub closed spec fn meta_of(&self) -> Map<Seq<char>, Seq<char>> {
        entries_map(self.meta@)
    }

    /// An error of kind `code`; an empty `note` is replaced by the kind's
    /// default note. The metadata starts empty.
    pub fn new(note: &str, code: ErrorCode) -> (r: Self)
        ensures
            r.wf(),
            r.code_of() == code,
            r.note_of() == if note@.len() == 0 {
                default_note(code)
            } else {
                note@
            },
            r.meta_of() == Map::<Seq<char>, Seq<char>>::empty(),
    {
        let text: String = if !note.is_empty() {
            note.to_owned()
        } else {
            match code {
                ErrorCode::Tech => "A technical issue occured. Please try again later.".to_owned(),
                ErrorCode::User => "An issue occured due to your input.".to_owned(),
                ErrorCode::NotFound => "The information you seek was not found.".to_owned(),
            }
        };
        let r = Error { code, note: text, meta: Vec::new() };
        assert(r.meta_of() =~= Map::<Seq<char>, Seq<char>>::empty());
        r
    }


    /// An error caused by the caller's input.
    pub fn user(note: &str) -> (r: Self)
        ensures
            r.wf(),
            r.code_of() == ErrorCode::User,
            r.note_of() == if note@.len() == 0 {
                default_note(ErrorCode::User)
            } else {
                note@
            },
            r.meta_of() == Map::<Seq<char>, Seq<char>>::empty(),
    {
        Self::new(note, ErrorCode::User)
    }

    /// A technical or internal failure.
    pub fn tech(note: &str) -> (r: Self)
        ensures
            r.wf(),
            r.code_of() == ErrorCode::Tech,
            r.note_of() == if note@.len() == 0 {
                default_note(ErrorCode::Tech)
            } else {
                note@
            },
            r.meta_of() == Map::<Seq<char>, Seq<char>>::empty(),
    {
        Self::new(note, ErrorCode::Tech)
    }

    /// Something that was looked for and not found.
    pub fn notfound(note: &str) -> (r: Self)
        ensures
            r.wf(),
            r.code_of() == ErrorCode::NotFound,
            r.note_of() == if note@.len() == 0 {
                default_note(ErrorCode::NotFound)
            } else {
                note@
            },
            r.meta_of() == Map::<Seq<char>, Seq<char>>::empty(),
    {
        Self::new(note, ErrorCode::NotFound)
    }

    /// Sets the metadata value of `key` to `val`, replacing any earlier value.
    pub fn add_meta(&mut self, key: &str, val: &str)
        requires
            old(self).wf(),
        ensures
            final(self).wf(),
            final(self).code_of() == old(self).code_of(),
            final(self).note_of() == old(self).note_of(),
            final(self).meta_of() == old(self).meta_of().insert(key@, val@),
    {
        let k: String = key.to_owned();
        let v: String = val.to_owned();
        let ghost e = self.meta@;
        let mut i: usize = 0;
        while i < self.meta.len()
            invariant
                e == self.meta@,
                e == old(self).meta@,
                self.code == old(self).code,
                self.note == old(self).note,
                keys_unique(e),
                k@ == key@,
                v@ == val@,
                0 <= i <= e.len(),
                forall|j: int| 0 <= j < i ==> (#[trigger] e[j]).0@ != key@,
            decreases e.len() - i,
        {
            if self.meta[i].0 == k {
                let kv = (k, v);
                self.meta.set(i, kv);
                proof {
                    let e2 = self.meta@;
                    assert(keys_unique(e2)) by {
                        assert forall|a: int, b: int|
                            0 <= a < e2.len() && 0 <= b < e2.len() && a != b implies (
                            #[trigger] e2[a]).0@ != (#[trigger] e2[b]).0@ by {
                            if a != i as int {
                                assert(e2[a] == e[a]);
                            }
                            if b != i as int {
                                assert(e2[b] == e[b]);
                            }
                        }
                    }
                    lemma_entries_map_same(e, e2, kv, i as int);
                }
                return;
            }
            i = i + 1;
        }
        proof {
            assert(!entries_map(e).contains_key(key@)) by {
                if entries_map(e).contains_key(key@) {
                    let c = choose|c: int| has_key_at(e, key@, c);
                    assert(e[c].0@ != key@);
                }
            }
        }
        let kv = (k, v);
        proof {
            lemma_entries_map_push(e, kv);
        }
        self.meta.push(kv);
    }

    /// `add_meta` on an owned error, handing it back.
    pub fn add_meta_x(self, key: &str, val: &str) -> (r: Self)
        requires
            self.wf(),
        ensures
            r.wf(),
            r.code_of() == self.code_of(),
            r.note_of() == self.note_of(),
            r.meta_of() == self.meta_of().insert(key@, val@),
    {
        let mut err = self;
        err.add_meta(key, val);
        err
    }

    /// Whether any metadata has been set.
    pub fn has_meta(&self) -> (r: bool)
        requires
            self.wf(),
        ensures
            r == (self.meta_of() != Map::<Seq<char>, Seq<char>>::empty()),
    {
        proof {
            if self.meta@.len() > 0 {
                lemma_entries_map_at(self.meta@, 0);
                assert(!Map::<Seq<char>, Seq<char>>::empty().contains_key(self.meta@[0].0@));
            } else {
                assert(self.meta_of() =~= Map::<Seq<char>, Seq<char>>::empty());
            }
        }
        self.meta.len() > 0
    }

    pub fn code(&self) -> (r: ErrorCode)
        ensures
            r == self.code_of(),
    {
        self.code
    }

    pub fn note(&self) -> (r: &str)
        ensures
            r@ == self.note_of(),
    {
        self.note.as_str()
    }

    /// The metadata value of `key`, if one is set.
    pub fn meta(&self, key: &str) -> (r: Option<&str>)
        requires
            self.wf(),
        ensures
            r.is_some() == self.meta_of().contains_key(key@),
            r.is_some() ==> r.unwrap()@ == self.meta_of()[key@],
    {
        let k: String = key.to_owned();
        let ghost e = self.meta@;
        let mut i: usize = 0;
        while i < self.meta.len()
            invariant
                e == self.meta@,
                keys_unique(e),
                k@ == key@,
                0 <= i <= e.len(),
                forall|j: int| 0 <= j < i ==> (#[trigger] e[j]).0@ != key@,
            decreases e.len() - i,
        {
            if self.meta[i].0 == k {
                proof {
                    lemma_entries_map_at(e, i as int);
                }
                return Some(self.meta[i].1.as_str());
            }
            i = i + 1;
        }
        proof {
            if entries_map(e).contains_key(key@) {
                let c = choose|c: int| has_key_at(e, key@, c);
                assert(e[c].0@ != key@);
            }
        }
        None
    }
}

/// `std::num::ParseIntError`, carried into an `Error`'s metadata as its message.
#[verifier::external_type_specification]
#[verifier::external_body]
pub struct ExParseIntError(std::num::ParseIntError);

impl Error {
    /// A technical error that records a failed integer parse: its metadata maps
    /// "from" to "parse_int_err" and "error" to the parse error's message.
    pub fn from_parse_int(e: &std::num::ParseIntError) -> (r: Error)
        ensures
            r.wf(),
            r.code_of() == ErrorCode::Tech,
            r.note_of() == default_note(ErrorCode::Tech),
            exists|msg: String|
                to_string_from_display_ensures::<std::num::ParseIntError>(e, msg) && r.meta_of()
                    == map!["from"@ => "parse_int_err"@, "error"@ => msg@],
    {
        let msg = e.to_string();
        proof {
            reveal_strlit("");
        }
        let mut err = Error::tech("");
        err.add_meta("from", "parse_int_err");
        err.add_meta("error", msg.as_str());
        proof {
            reveal_strlit("from");
            reveal_strlit("error");
            assert("from"@.len() != "error"@.len());
            assert(err.meta_of() =~= map!["from"@ => "parse_int_err"@, "error"@ => msg@]);
        }
        err
    }
}

impl From<std::num::ParseIntError> for Error {
    fn from(e: std::num::ParseIntError) -> (r: Error) {
        Error::from_parse_int(&e)
    }
}

impl vstd::std_specs::convert::FromSpecImpl<std::num::ParseIntError> for Error {
    open spec fn obeys_from_spec() -> bool {
        false
    }

    open spec fn from_spec(v: std::num::ParseIntError) -> Error {
        arbitrary()
    }
}

} // verus!
