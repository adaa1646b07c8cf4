//! The command alias table: trigger strings by command name. Lookup
//! folds the name to lowercase; an explicit override wins, the
//! built-in leader and commander defaults apply in its absence, and
//! any other unknown name resolves to nothing.

use vstd::prelude::*;
use vstd::string::StringExecFns;

verus! {

/// The lowercase folding of a string.
pub uninterp spec fn lower_of(s: Seq<char>) -> Seq<char>;

/// Relies on str::to_lowercase: the Unicode lowercase equivalent of
/// the string, a function of its characters alone.
#[verifier::external_body]
fn to_lowercase(s: &str) -> (r: String)
    ensures
        r@ == lower_of(s@),
{
    s.to_lowercase()
}

/// The override store. The hash map inside is opaque here; what it
/// holds is named by `alias_entries`, and the accessors below say how
/// each call changes or reads that content.
#[verifier::external_body]
pub struct AliasMap {
    inner: hashbrown::HashMap<String, String>,
}

/// What the override store holds: trigger strings by name.
pub uninterp spec fn alias_entries(m: AliasMap) -> Map<Seq<char>, Seq<char>>;

impl View for AliasMap {
    type V = Map<Seq<char>, Seq<char>>;

    open spec fn view(&self) -> Map<Seq<char>, Seq<char>> {
        alias_entries(*self)
    }
}

impl AliasMap {
    /// Relies on hashbrown::HashMap::new: an empty map.
    #[verifier::external_body]
    pub(crate) fn new() -> (r: AliasMap)
        ensures
            alias_entries(r) =~= Map::empty(),
    {
        AliasMap { inner: hashbrown::HashMap::new() }
    }

    /// Relies on hashbrown::HashMap::insert: the key maps to the
    /// value afterward, and no other entry changes.
    #[verifier::external_body]
    pub(crate) fn insert(&mut self, key: String, value: String)
        ensures
            alias_entries(*final(self)) == alias_entries(*old(self)).insert(key@, value@),
    {
        self.inner.insert(key, value);
    }

    /// Relies on hashbrown::HashMap::get: the value the key maps to,
    /// or nothing when no entry has that key.
    #[verifier::external_body]
    pub(crate) fn get<'a>(&'a self, key: &String) -> (r: Option<&'a String>)
        ensures
            match r {
                Some(v) => alias_entries(*self).contains_key(key@) && v@ == alias_entries(
                    *self,
                )[key@],
                None => !alias_entries(*self).contains_key(key@),
            },
    {
        self.inner.get(key)
    }
}

/// The trigger string a name resolves to: the override stored under
/// the folded name; else the built-in default, `","` for the leader
/// and `"/"` for the commander; else nothing.
pub open spec fn resolve(m: Map<Seq<char>, Seq<char>>, name: Seq<char>) -> Option<Seq<char>> {
    let key = lower_of(name);
    if m.contains_key(key) {
        Some(m[key])
    } else if key == "leader"@ {
        Some(","@)
    } else if key == "commander"@ {
        Some("/"@)
    } else {
        None
    }
}

/// Name-to-trigger mapping with the built-in leader and commander
/// defaults. Its view is the override map alone; `resolve` says what
/// any name comes out as.
pub struct CommandAliases {
    overrides: AliasMap,
}

impl View for CommandAliases {
    type V = Map<Seq<char>, Seq<char>>;

    closed spec fn view(&self) -> Map<Seq<char>, Seq<char>> {
        self.overrides@
    }
}

impl CommandAliases {
    /// A table with no overrides: only the built-ins resolve.
    pub fn new() -> (r: CommandAliases)
        ensures
            r@ == Map::<Seq<char>, Seq<char>>::empty(),
    {
        CommandAliases { overrides: AliasMap::new() }
    }

    /// Stores an override under the given name, as written.
    pub fn insert(&mut self, name: String, trigger: String)
        ensures
            final(self)@ == old(self)@.insert(name@, trigger@),
    {
        self.overrides.insert(name, trigger);
    }

    /// The trigger string for a name: the override for the folded
    /// name if there is one, else the built-in default if there is
    /// one, else nothing.
    pub fn get<'a>(&'a self, key: &str) -> (r: Option<&'a str>)
        ensures
            match r {
                Some(t) => resolve(self@, key@) == Some(t@),
                None => resolve(self@, key@) is None,
            },
    {
        let folded = to_lowercase(key);
        match self.overrides.get(&folded) {
            Some(v) => Some(v.as_str()),
            None => {
                if folded == String::from_str("leader") {
                    Some(",")
                } else if folded == String::from_str("commander") {
                    Some("/")
                } else {
                    None
                }
            },
        }
    }
}

} // verus!
