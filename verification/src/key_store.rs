//! Where secrets are kept: the system credential store under a service name,
//! with a fallback directory of files when the credential store fails.

use vstd::prelude::*;

verus! {

broadcast use vstd::string::group_string_axioms;

/// What [`SecureStore::get_or_create`] returns, given what `get`, `generate` and
/// `set` return: a non-empty value read is returned as is; otherwise a generated
/// value is stored and returned; the first error of the three is passed on.
pub open spec fn get_or_create_outcome<E, G, S, F>(user: &str, get: G, set: S, generate: F, r: Result<Vec<u8>, E>) -> bool where
    G: FnOnce(&str) -> Result<Option<Vec<u8>>, E>,
    S: FnOnce(&str, &[u8]) -> Result<(), E>,
    F: FnOnce() -> Result<Vec<u8>, E>,
 {
    exists|got: Result<Option<Vec<u8>>, E>| #[trigger] call_ensures(get, (user,), got) && {
        &&& got is Err ==> r == Err::<Vec<u8>, E>(got->Err_0)
        &&& got is Ok && got->Ok_0 is Some && got->Ok_0->0@.len() > 0 ==> r is Ok && r->Ok_0@ == got->Ok_0->0@
        &&& got is Ok && !(got->Ok_0 is Some && got->Ok_0->0@.len() > 0) ==> exists|made: Result<Vec<u8>, E>|
            #[trigger] call_ensures(generate, (), made) && {
                &&& made is Err ==> r == Err::<Vec<u8>, E>(made->Err_0)
                &&& made is Ok ==> exists|x: &[u8], stored: Result<(), E>|
                    x@ == made->Ok_0@ && #[trigger] call_ensures(set, (user, x), stored) && {
                        &&& stored is Ok ==> r is Ok && r->Ok_0@ == made->Ok_0@
                        &&& stored is Err ==> r == Err::<Vec<u8>, E>(stored->Err_0)
                    }
            }
    }
}

/// Whether every read by `get` of `user` gives back `v`.
pub open spec fn reads_back<E, G>(get: G, user: &str, v: Seq<u8>) -> bool where
    G: FnOnce(&str) -> Result<Option<Vec<u8>>, E>,
 {
    forall|got: Result<Option<Vec<u8>>, E>| #[trigger] call_ensures(get, (user,), got) ==> got is Ok && got->Ok_0 is Some
        && got->Ok_0->0@ == v
}

/// A later call returns the first call's value: when the first call succeeded
/// with a non-empty value, and the store gives back what the first call read or what it stored (nothing
/// else wrote the secret in between), the second call returns the same value,
/// whatever its generator would make.
pub proof fn lemma_later_call_returns_first<E, G1, G2, S1, S2, F1, F2>(
    user: &str,
    get1: G1,
    set1: S1,
    gen1: F1,
    r1: Result<Vec<u8>, E>,
    get2: G2,
    set2: S2,
    gen2: F2,
    r2: Result<Vec<u8>, E>,
)
    where
        G1: FnOnce(&str) -> Result<Option<Vec<u8>>, E>,
        G2: FnOnce(&str) -> Result<Option<Vec<u8>>, E>,
        S1: FnOnce(&str, &[u8]) -> Result<(), E>,
        S2: FnOnce(&str, &[u8]) -> Result<(), E>,
        F1: FnOnce() -> Result<Vec<u8>, E>,
        F2: FnOnce() -> Result<Vec<u8>, E>,
    requires
        get_or_create_outcome(user, get1, set1, gen1, r1),
        get_or_create_outcome(user, get2, set2, gen2, r2),
        r1 is Ok,
        r1->Ok_0@.len() > 0,
        forall|got: Result<Option<Vec<u8>>, E>|
            #[trigger] call_ensures(get1, (user,), got) && got is Ok && got->Ok_0 is Some ==> reads_back(
                get2,
                user,
                got->Ok_0->0@,
            ),
        forall|x: &[u8], stored: Result<(), E>|
            #[trigger] call_ensures(set1, (user, x), stored) && stored is Ok ==> reads_back(get2, user, x@),
    ensures
        r2 is Ok && r2->Ok_0@ == r1->Ok_0@,
{
    let got1 = choose|got: Result<Option<Vec<u8>>, E>| #[trigger] call_ensures(get1, (user,), got) && {
        &&& got is Err ==> r1 == Err::<Vec<u8>, E>(got->Err_0)
        &&& got is Ok && got->Ok_0 is Some && got->Ok_0->0@.len() > 0 ==> r1 is Ok && r1->Ok_0@ == got->Ok_0->0@
        &&& got is Ok && !(got->Ok_0 is Some && got->Ok_0->0@.len() > 0) ==> exists|made: Result<Vec<u8>, E>|
            #[trigger] call_ensures(gen1, (), made) && {
                &&& made is Err ==> r1 == Err::<Vec<u8>, E>(made->Err_0)
                &&& made is Ok ==> exists|x: &[u8], stored: Result<(), E>|
                    x@ == made->Ok_0@ && #[trigger] call_ensures(set1, (user, x), stored) && {
                        &&& stored is Ok ==> r1 is Ok && r1->Ok_0@ == made->Ok_0@
                        &&& stored is Err ==> r1 == Err::<Vec<u8>, E>(stored->Err_0)
                    }
            }
    };
    let v = r1->Ok_0@;
    if got1 is Ok && got1->Ok_0 is Some && got1->Ok_0->0@.len() > 0 {
        assert(reads_back(get2, user, v));
    } else {
        let made = choose|made: Result<Vec<u8>, E>| #[trigger] call_ensures(gen1, (), made) && {
            &&& made is Err ==> r1 == Err::<Vec<u8>, E>(made->Err_0)
            &&& made is Ok ==> exists|x: &[u8], stored: Result<(), E>|
                x@ == made->Ok_0@ && #[trigger] call_ensures(set1, (user, x), stored) && {
                    &&& stored is Ok ==> r1 is Ok && r1->Ok_0@ == made->Ok_0@
                    &&& stored is Err ==> r1 == Err::<Vec<u8>, E>(stored->Err_0)
                }
        };
        let (x, stored) = choose|x: &[u8], stored: Result<(), E>|
            x@ == made->Ok_0@ && #[trigger] call_ensures(set1, (user, x), stored) && {
                &&& stored is Ok ==> r1 is Ok && r1->Ok_0@ == made->Ok_0@
                &&& stored is Err ==> r1 == Err::<Vec<u8>, E>(stored->Err_0)
            };
        assert(reads_back(get2, user, v));
    }
    let got2 = choose|got: Result<Option<Vec<u8>>, E>| #[trigger] call_ensures(get2, (user,), got) && {
        &&& got is Err ==> r2 == Err::<Vec<u8>, E>(got->Err_0)
        &&& got is Ok && got->Ok_0 is Some && got->Ok_0->0@.len() > 0 ==> r2 is Ok && r2->Ok_0@ == got->Ok_0->0@
        &&& got is Ok && !(got->Ok_0 is Some && got->Ok_0->0@.len() > 0) ==> exists|made: Result<Vec<u8>, E>|
            #[trigger] call_ensures(gen2, (), made) && {
                &&& made is Err ==> r2 == Err::<Vec<u8>, E>(made->Err_0)
                &&& made is Ok ==> exists|x: &[u8], stored: Result<(), E>|
                    x@ == made->Ok_0@ && #[trigger] call_ensures(set2, (user, x), stored) && {
                        &&& stored is Ok ==> r2 is Ok && r2->Ok_0@ == made->Ok_0@
                        &&& stored is Err ==> r2 == Err::<Vec<u8>, E>(stored->Err_0)
                    }
            }
    };
    assert(got2 is Ok && got2->Ok_0 is Some && got2->Ok_0->0@ == v);
}

/// `dir` joined with `name` by the rule of `Path::join` with `/` separators: an
/// absolute `name` (starting with `/`) replaces `dir`; otherwise a `/` is put
/// between them unless `dir` is empty or already ends with one.
pub open spec fn joined_path(dir: Seq<char>, name: Seq<char>) -> Seq<char> {
    if name.len() > 0 && name[0] == '/' {
        name
    } else if dir.len() == 0 || dir.last() == '/' {
        dir + name
    } else {
        dir + seq!['/'] + name
    }
}

/// `dir` joined with `name` (see [`joined_path`]).
pub fn join_path(dir: &str, name: &str) -> (r: String)
    ensures
        r@ == joined_path(dir@, name@),
{
    let n = crate::text::str_chars(name);
    if n.len() > 0 && n[0] == '/' {
        return name.to_owned();
    }
    let d = crate::text::str_chars(dir);
    if d.len() == 0 || d[d.len() - 1] == '/' {
        return dir.to_owned().concat(name);
    }
    proof {
        reveal_strlit("/");
    }
    dir.to_owned().concat("/").concat(name)
}

/// What the system credential store answered to a read.
#[derive(Clone, Debug)]
pub enum KeyringRead {
    /// The secret.
    Found(Vec<u8>),
    /// No entry under this name.
    NoEntry,
    /// The read failed for another reason.
    Failed,
    /// The credential store could not be opened.
    Unavailable,
}

/// What to do after a read from the credential store.
#[derive(Clone, Debug)]
pub enum ReadAction {
    /// Answer with this.
    Answer(Option<Vec<u8>>),
    /// Read the fallback file instead.
    UseFile,
}

/// The read rule: a secret found or a missing entry is the answer; any other
/// failure falls back to the file.
pub fn read_action(read: KeyringRead) -> (r: ReadAction)
    ensures
        read matches KeyringRead::Found(v) ==> r matches ReadAction::Answer(Some(w)) && w@ == v@,
        read is NoEntry ==> (r matches ReadAction::Answer(a) && a is None),
        read is Failed || read is Unavailable ==> r is UseFile,
{
    match read {
        KeyringRead::Found(v) => ReadAction::Answer(Some(v)),
        KeyringRead::NoEntry => ReadAction::Answer(None),
        KeyringRead::Failed => ReadAction::UseFile,
        KeyringRead::Unavailable => ReadAction::UseFile,
    }
}

/// What the system credential store answered to a write.
#[derive(Clone, Copy, Debug, PartialEq, Eq, Structural)]
pub enum KeyringWrite {
    /// The secret was stored.
    Stored,
    /// The write failed.
    Failed,
    /// The credential store could not be opened.
    Unavailable,
}

/// The write rule: a failed write, or no credential store, falls back to the file.
pub fn write_uses_file(write: KeyringWrite) -> (r: bool)
    ensures
        r == (write != KeyringWrite::Stored),
{
    match write {
        KeyringWrite::Stored => false,
        _ => true,
    }
}

/// A store of named secrets.
#[derive(Clone, Debug)]
pub struct SecureStore {
    service: String,
    fallback_dir: Option<String>,
}

impl SecureStore {
    /// The credential-store service name.
    pub closed spec fn service(&self) -> Seq<char> {
        self.service@
    }

    /// The fallback directory, if any.
    pub closed spec fn fallback_dir(&self) -> Option<Seq<char>> {
        match self.fallback_dir {
            Some(d) => Some(d@),
            None => None,
        }
    }

    /// A store for `service`, without fallback directory.
    pub fn new(service: &str) -> (r: SecureStore)
        ensures
            r.service() == service@,
            r.fallback_dir() is None,
    {
        SecureStore { service: service.to_owned(), fallback_dir: None }
    }

    /// The same store, falling back to files in `dir`.
    pub fn with_fallback_dir(self, dir: String) -> (r: SecureStore)
        ensures
            r.service() == self.service(),
            r.fallback_dir() == Some(dir@),
    {
        SecureStore { service: self.service, fallback_dir: Some(dir) }
    }

    /// The service name.
    pub fn service_name(&self) -> (r: &str)
        ensures
            r@ == self.service(),
    {
        self.service.as_str()
    }

    /// The fallback file of secret `user`: `<user>.bin` joined onto the fallback
    /// directory (see [`joined_path`]); none without a fallback directory.
    pub fn file_path(&self, user: &str) -> (r: Option<String>)
        ensures
            self.fallback_dir() is None ==> r is None,
            self.fallback_dir() matches Some(d) ==> r matches Some(p) && p@ == joined_path(d, user@ + seq![
                '.',
                'b',
                'i',
                'n',
            ]),
    {
        match &self.fallback_dir {
            Some(d) => {
                proof {
                    reveal_strlit(".bin");
                }
                let name = user.to_owned().concat(".bin");
                Some(join_path(d.as_str(), name.as_str()))
            },
            None => None,
        }
    }

    /// Reads secret `user`, or makes and stores it: an existing non-empty value
    /// is returned as is; otherwise `generate` makes one, which is stored and
    /// returned. `get` and `set` are the reads and writes of this store; the
    /// first error of `get`, `generate` or `set` is passed on and ends the call.
    pub fn get_or_create<E, G, S, F>(&self, user: &str, get: G, set: S, generate: F) -> (r: Result<Vec<u8>, E>)
        where
            G: FnOnce(&str) -> Result<Option<Vec<u8>>, E>,
            S: FnOnce(&str, &[u8]) -> Result<(), E>,
            F: FnOnce() -> Result<Vec<u8>, E>,
        requires
            call_requires(get, (user,)),
            forall|v: &[u8]| call_requires(set, (user, v)),
            call_requires(generate, ()),
        ensures
            get_or_create_outcome(user, get, set, generate, r),
    {
        match get(user) {
            Ok(Some(v)) => {
                if v.len() > 0 {
                    return Ok(v);
                }
            },
            Ok(None) => {},
            Err(e) => {
                return Err(e);
            },
        }
        let v = match generate() {
            Ok(v) => v,
            Err(e) => {
                return Err(e);
            },
        };
        match set(user, v.as_slice()) {
            Ok(()) => Ok(v),
            Err(e) => Err(e),
        }
    }
}

} // verus!
