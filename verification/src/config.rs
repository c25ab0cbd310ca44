use vstd::prelude::*;
use crate::text::{joined, lemma_joined_push, views};

verus! {

/// The value that stands for "not given" in the owner and mode fields of an
/// entry.
pub fn default_max() -> (r: u32)
    ensures
        r == u32::MAX,
{
    u32::MAX
}

/// What the file system reports about the owner and permissions of a path.
#[derive(Debug, Clone, Copy, PartialEq, Eq)]
pub struct Ownership {
    pub uid: u32,
    pub gid: u32,
    pub mode: u32,
}

/// One managed path: for a file, `source` is its content; for a symlink, the
/// path the link points at. An owner or mode equal to `u32::MAX` was not given.
#[derive(Debug, PartialEq, Eq)]
pub struct Entry {
    pub source: String,
    pub uid: u32,
    pub gid: u32,
    pub mode: u32,
}

/// The defaults could not be inherited; `fields` names the fields that were
/// left unset, separated by ", ".
#[derive(Debug, PartialEq, Eq)]
pub struct MissingDefaults {
    pub fields: String,
}

/// The message shown when the defaults of the entry with the given source
/// could not be inherited because its metadata could not be read (`detail`
/// says why).
pub open spec fn spec_defaults_message(source: Seq<char>, fields: Seq<char>, detail: Seq<char>) -> Seq<
    char,
> {
    "Failed to read metadata for resolve defaults for \n"@ + source
        + "\nThe following fields were not specified: ["@ + fields + "]: "@ + detail + "\n"@
        + "Commonly, this is for when creating an arbitrary files, since it is not possible to infer existing permissions."@
        + "\n"@ + "Please manually specify the required fields."@
}

impl MissingDefaults {
    /// The message shown for this error, for the entry with the given source
    /// whose metadata could not be read for the reason `detail`.
    pub fn message(&self, source: &str, detail: &str) -> (r: String)
        ensures
            r@ == spec_defaults_message(source@, self.fields@, detail@),
    {
        let mut r = String::from_str("Failed to read metadata for resolve defaults for \n");
        r.append(source);
        r.append("\nThe following fields were not specified: [");
        r.append(self.fields.as_str());
        r.append("]: ");
        r.append(detail);
        r.append("\n");
        r.append(
            "Commonly, this is for when creating an arbitrary files, since it is not possible to infer existing permissions.",
        );
        r.append("\n");
        r.append("Please manually specify the required fields.");
        r
    }
}

impl Entry {
    /// Some of owner, group and mode was left unset.
    pub open spec fn spec_needs_defaults(self) -> bool {
        self.uid == u32::MAX || self.gid == u32::MAX || self.mode == u32::MAX
    }

    /// The names of the unset fields, in the order uid, gid, mode.
    pub open spec fn unset_field_names(self) -> Seq<Seq<char>> {
        (if self.uid == u32::MAX { seq!["uid"@] } else { Seq::empty() })
            + (if self.gid == u32::MAX { seq!["gid"@] } else { Seq::empty() })
            + (if self.mode == u32::MAX { seq!["mode"@] } else { Seq::empty() })
    }

    /// The entry with every unset field taken from `found`, and every field
    /// that was given kept.
    pub open spec fn with_defaults(self, found: Ownership) -> Entry {
        Entry {
            source: self.source,
            uid: if self.uid == u32::MAX { found.uid } else { self.uid },
            gid: if self.gid == u32::MAX { found.gid } else { self.gid },
            mode: if self.mode == u32::MAX { found.mode } else { self.mode },
        }
    }

    /// Whether some of owner, group and mode must be inherited from the
    /// source path.
    pub fn needs_defaults(&self) -> (r: bool)
        ensures
            r == self.spec_needs_defaults(),
    {
        self.uid == u32::MAX || self.gid == u32::MAX || self.mode == u32::MAX
    }

    /// The names of the unset fields joined by ", ".
    pub fn missing_fields(&self) -> (text: String)
        ensures
            text@ == joined(self.unset_field_names(), ", "@),
    {
        let ghost sep = ", "@;
        let ghost mut parts: Seq<Seq<char>> = Seq::empty();
        let mut text = String::new();
        let mut any: bool = false;
        if self.uid == u32::MAX {
            proof { lemma_joined_push(parts, "uid"@, sep); }
            text.append("uid");
            any = true;
            proof { parts = parts.push("uid"@); }
        }
        if self.gid == u32::MAX {
            proof { lemma_joined_push(parts, "gid"@, sep); }
            assert(any == (parts.len() > 0));
            if any {
                text.append(", ");
            }
            text.append("gid");
            any = true;
            proof { parts = parts.push("gid"@); }
        }
        if self.mode == u32::MAX {
            proof { lemma_joined_push(parts, "mode"@, sep); }
            assert(any == (parts.len() > 0));
            if any {
                text.append(", ");
            }
            text.append("mode");
            proof { parts = parts.push("mode"@); }
        }
        assert(parts =~= self.unset_field_names());
        text
    }

    /// Fills the unset owner, group and mode from `found`, what the file
    /// system reports for the source path. Nothing needs to be found when all
    /// three were given; when some were not and nothing was found, the entry
    /// stays as it is and the error names the unset fields.
    pub fn resolve_defaults(&mut self, found: Option<Ownership>) -> (r: Result<(), MissingDefaults>)
        ensures
            !old(self).spec_needs_defaults() ==> r is Ok && *final(self) == *old(self),
            old(self).spec_needs_defaults() && found is Some ==> r is Ok && *final(self)
                == old(self).with_defaults(found->0),
            old(self).spec_needs_defaults() && found is None ==> *final(self) == *old(self) && (
            r matches Err(m) && m.fields@ == joined(old(self).unset_field_names(), ", "@)),
            found matches Some(o) ==> r is Ok && final(self).source == old(self).source && final(self).uid == (if old(self).uid == u32::MAX {
                o.uid
            } else {
                old(self).uid
            }) && final(self).gid == (if old(self).gid == u32::MAX {
                o.gid
            } else {
                old(self).gid
            }) && final(self).mode == (if old(self).mode == u32::MAX {
                o.mode
            } else {
                old(self).mode
            }),
            found is None ==> (r is Ok <==> (old(self).uid != u32::MAX && old(self).gid != u32::MAX
                && old(self).mode != u32::MAX)),
    {
        if !self.needs_defaults() {
            return Ok(());
        }
        match found {
            Some(o) => {
                if self.uid == u32::MAX {
                    self.uid = o.uid;
                }
                if self.gid == u32::MAX {
                    self.gid = o.gid;
                }
                if self.mode == u32::MAX {
                    self.mode = o.mode;
                }
                Ok(())
            },
            None => Err(MissingDefaults { fields: self.missing_fields() }),
        }
    }
}

/// Inheriting defaults keeps every field that was given, fills the others
/// from what was found, and inheriting a second time from the same source
/// changes nothing more.
pub proof fn lemma_defaults_settle(e: Entry, found: Ownership)
    ensures
        e.uid != u32::MAX ==> e.with_defaults(found).uid == e.uid,
        e.gid != u32::MAX ==> e.with_defaults(found).gid == e.gid,
        e.mode != u32::MAX ==> e.with_defaults(found).mode == e.mode,
        e.with_defaults(found).source == e.source,
        e.with_defaults(found).with_defaults(found) == e.with_defaults(found),
        found.uid != u32::MAX && found.gid != u32::MAX && found.mode != u32::MAX
            ==> !e.with_defaults(found).spec_needs_defaults(),
{
}

/// Inheriting defaults fills each unset field from the same field of what
/// was found: the owner from the owner, the group from the group, the mode
/// from the mode; never one from another.
pub proof fn lemma_defaults_field_by_field(e: Entry, found: Ownership)
    ensures
        e.uid == u32::MAX ==> e.with_defaults(found).uid == found.uid,
        e.gid == u32::MAX ==> e.with_defaults(found).gid == found.gid,
        e.mode == u32::MAX ==> e.with_defaults(found).mode == found.mode,
        e.uid != u32::MAX ==> e.with_defaults(found).uid == e.uid,
        e.gid != u32::MAX ==> e.with_defaults(found).gid == e.gid,
        e.mode != u32::MAX ==> e.with_defaults(found).mode == e.mode,
{
}

/// Run-wide options of the configuration.
#[derive(Debug, Clone, PartialEq, Eq)]
pub struct Settings {
    /// Whether a file that an install replaced is kept; when not given, the
    /// user is asked each time.
    pub keep_clobbered: Option<bool>,
    /// Where the cache of created paths lives, in place of the default.
    pub cache_path: Option<String>,
}

/// The paths of a list of (path, entry) pairs, in order.
pub open spec fn paths_of(entries: Seq<(String, Entry)>) -> Seq<Seq<char>> {
    entries.map_values(|p: (String, Entry)| p.0@)
}

/// No path occurs twice.
pub open spec fn distinct(paths: Seq<Seq<char>>) -> bool {
    forall|i: int, j: int| 0 <= i < j < paths.len() ==> paths[i] != paths[j]
}

/// Whether no path occurs twice in `entries`.
pub fn paths_distinct(entries: &Vec<(String, Entry)>) -> (r: bool)
    ensures
        r == distinct(paths_of(entries@)),
{
    let n = entries.len();
    for i in 0..n
        invariant
            n == entries@.len(),
            forall|a: int, b: int| 0 <= a < b < n && a < i ==> paths_of(entries@)[a] != paths_of(entries@)[b],
    {
        for j in i + 1..n
            invariant
                n == entries@.len(),
                i < n,
                forall|a: int, b: int| 0 <= a < b < n && a < i ==> paths_of(entries@)[a] != paths_of(entries@)[b],
                forall|b: int| i < b < j ==> paths_of(entries@)[i as int] != paths_of(entries@)[b],
        {
            if entries[i].0 == entries[j].0 {
                assert(paths_of(entries@)[i as int] == paths_of(entries@)[j as int]);
                return false;
            }
        }
    }
    true
}

/// A whole configuration: the files and the symlinks it manages, each by its
/// path, and the run-wide settings. Within the files, and within the
/// symlinks, no path occurs twice (see `Config::wf`).
#[derive(Debug, PartialEq, Eq)]
pub struct Config {
    pub files: Vec<(String, Entry)>,
    pub symlinks: Vec<(String, Entry)>,
    pub settings: Settings,
}

impl Config {
    /// The configuration's own consistency: each file path, and each symlink
    /// path, is given once.
    pub open spec fn wf(self) -> bool {
        distinct(paths_of(self.files@)) && distinct(paths_of(self.symlinks@))
    }

    /// Whether each file path, and each symlink path, is given once.
    pub fn is_wf(&self) -> (r: bool)
        ensures
            r == self.wf(),
    {
        paths_distinct(&self.files) && paths_distinct(&self.symlinks)
    }

    /// Every path the configuration manages: the files first, then the
    /// symlinks.
    pub open spec fn managed(self) -> Seq<Seq<char>> {
        paths_of(self.files@) + paths_of(self.symlinks@)
    }

    /// `p` is the path of one of the files or of one of the symlinks.
    pub open spec fn configures(self, p: Seq<char>) -> bool {
        (exists|i: int| 0 <= i < self.files@.len() && #[trigger] self.files@[i].0@ == p) || (exists|
            j: int,
        | 0 <= j < self.symlinks@.len() && #[trigger] self.symlinks@[j].0@ == p)
    }

    /// The paths that were created by an earlier run and that the
    /// configuration no longer manages, in the order in which they are cached.
    pub open spec fn stale(self, cached: Seq<Seq<char>>) -> Seq<Seq<char>> {
        cached.filter(|p: Seq<char>| !self.managed().contains(p))
    }

    /// Every path the configuration manages, files first, then symlinks: what
    /// a successful run has made and records in the cache.
    pub fn managed_paths(&self) -> (r: Vec<String>)
        ensures
            views(r@) == self.managed(),
            r@.len() == self.files@.len() + self.symlinks@.len(),
            forall|k: int| 0 <= k < self.files@.len() ==> (#[trigger] r@[k])@ == self.files@[k].0@,
            forall|k: int|
                0 <= k < self.symlinks@.len() ==> (#[trigger] r@[self.files@.len() + k])@
                    == self.symlinks@[k].0@,
    {
        let mut r: Vec<String> = Vec::new();
        let n = self.files.len();
        for i in 0..n
            invariant
                n == self.files@.len(),
                views(r@) =~= paths_of(self.files@).take(i as int),
        {
            r.push(self.files[i].0.clone());
            assert(paths_of(self.files@).take(i + 1) =~= paths_of(self.files@).take(i as int).push(self.files@[i as int].0@));
        }
        let m = self.symlinks.len();
        for j in 0..m
            invariant
                m == self.symlinks@.len(),
                views(r@) =~= paths_of(self.files@) + paths_of(self.symlinks@).take(j as int),
        {
            r.push(self.symlinks[j].0.clone());
            assert(paths_of(self.symlinks@).take(j + 1) =~= paths_of(self.symlinks@).take(j as int).push(self.symlinks@[j as int].0@));
            assert(paths_of(self.files@) + paths_of(self.symlinks@).take(j + 1) =~= (paths_of(self.files@) + paths_of(self.symlinks@).take(j as int)).push(self.symlinks@[j as int].0@));
        }
        assert(views(r@) =~= self.managed());
        assert(r@.len() == views(r@).len());
        assert forall|k: int| 0 <= k < self.files@.len() implies (#[trigger] r@[k])@
            == self.files@[k].0@ by {
            assert(views(r@)[k] == self.managed()[k]);
        }
        assert forall|k: int| 0 <= k < self.symlinks@.len() implies (
        #[trigger] r@[self.files@.len() + k])@ == self.symlinks@[k].0@ by {
            assert(views(r@)[self.files@.len() + k] == self.managed()[self.files@.len() + k]);
        }
        r
    }

    /// Whether `path` is one of the files or symlinks of the configuration.
    pub fn is_managed(&self, path: &String) -> (r: bool)
        ensures
            r == self.managed().contains(path@),
            r == self.configures(path@),
    {
        proof {
            lemma_managed_are_configured(*self, path@);
        }
        let n = self.files.len();
        for i in 0..n
            invariant
                n == self.files@.len(),
                forall|k: int| 0 <= k < i ==> paths_of(self.files@)[k] != path@,
        {
            if self.files[i].0 == *path {
                assert(self.managed()[i as int] == path@);
                return true;
            }
        }
        let m = self.symlinks.len();
        for j in 0..m
            invariant
                m == self.symlinks@.len(),
                n == self.files@.len(),
                forall|k: int| 0 <= k < n ==> paths_of(self.files@)[k] != path@,
                forall|k: int| 0 <= k < j ==> paths_of(self.symlinks@)[k] != path@,
        {
            if self.symlinks[j].0 == *path {
                assert(self.managed()[n + j] == path@);
                return true;
            }
        }
        assert(!self.managed().contains(path@)) by {
            if self.managed().contains(path@) {
                let k = choose|k: int| 0 <= k < self.managed().len() && self.managed()[k] == path@;
                if k < n {
                    assert(paths_of(self.files@)[k] == path@);
                } else {
                    assert(paths_of(self.symlinks@)[k - n] == path@);
                }
            }
        }
        false
    }

    /// The cached paths that the configuration no longer manages: what an
    /// earlier run created and this run removes, in cache order.
    pub fn stale_paths(&self, cached: &Vec<String>) -> (r: Vec<String>)
        ensures
            views(r@) == self.stale(views(cached@)),
            forall|p: Seq<char>|
                views(r@).contains(p) <==> (views(cached@).contains(p) && !self.configures(p)),
    {
        let ghost pred = |p: Seq<char>| !self.managed().contains(p);
        let mut r: Vec<String> = Vec::new();
        let n = cached.len();
        for i in 0..n
            invariant
                n == cached@.len(),
                pred == (|p: Seq<char>| !self.managed().contains(p)),
                views(r@) =~= views(cached@).take(i as int).filter(pred),
        {
            let keep = !self.is_managed(&cached[i]);
            if keep {
                r.push(cached[i].clone());
            }
            proof {
                let t = views(cached@).take(i + 1);
                assert(t.drop_last() =~= views(cached@).take(i as int));
                assert(t.last() == cached@[i as int]@);
                reveal_with_fuel(Seq::filter, 1);
            }
        }
        assert(views(cached@).take(n as int) =~= views(cached@));
        assert forall|p: Seq<char>|
            #[trigger] views(r@).contains(p) <==> (views(cached@).contains(p) && !self.configures(p)) by {
            lemma_stale_exactly(*self, views(cached@), p);
            lemma_managed_are_configured(*self, p);
        }
        r
    }
}

/// The managed paths are exactly the configured ones: every file path and
/// every symlink path is managed, whatever else is configured, and nothing
/// else is.
pub proof fn lemma_managed_are_configured(config: Config, p: Seq<char>)
    ensures
        config.managed().contains(p) <==> config.configures(p),
        forall|k: int|
            0 <= k < config.symlinks@.len() ==> config.managed().contains(
                #[trigger] config.symlinks@[k].0@,
            ),
        forall|k: int|
            0 <= k < config.files@.len() ==> config.managed().contains(#[trigger] config.files@[k].0@),
        config.managed().len() == config.files@.len() + config.symlinks@.len(),
{
    let f = paths_of(config.files@);
    let l = paths_of(config.symlinks@);
    let m = config.managed();
    assert forall|k: int| 0 <= k < config.symlinks@.len() implies m.contains(
        #[trigger] config.symlinks@[k].0@,
    ) by {
        assert(m[f.len() + k] == config.symlinks@[k].0@);
    }
    assert forall|k: int| 0 <= k < config.files@.len() implies m.contains(
        #[trigger] config.files@[k].0@,
    ) by {
        assert(m[k] == config.files@[k].0@);
    }
    if m.contains(p) {
        let k = choose|k: int| 0 <= k < m.len() && m[k] == p;
        if k < f.len() {
            assert(config.files@[k].0@ == p);
        } else {
            assert(config.symlinks@[k - f.len()].0@ == p);
        }
    }
    if config.configures(p) {
        if exists|i: int| 0 <= i < config.files@.len() && #[trigger] config.files@[i].0@ == p {
            let i = choose|i: int| 0 <= i < config.files@.len() && #[trigger] config.files@[i].0@ == p;
            assert(m[i] == p);
        } else {
            let j = choose|j: int| 0 <= j < config.symlinks@.len() && #[trigger] config.symlinks@[j].0@ == p;
            assert(m[f.len() + j] == p);
        }
    }
}

/// A path is stale exactly when it is cached and no longer managed; and a
/// run whose cache records what the same configuration manages finds nothing
/// stale.
pub proof fn lemma_stale_exactly(config: Config, cached: Seq<Seq<char>>, p: Seq<char>)
    ensures
        config.stale(cached).contains(p) <==> (cached.contains(p) && !config.managed().contains(p)),
        config.stale(config.managed()) == Seq::<Seq<char>>::empty(),
{
    let pred = |q: Seq<char>| !config.managed().contains(q);
    broadcast use vstd::seq_lib::group_filter_ensures;
    if cached.contains(p) && !config.managed().contains(p) {
        let i = choose|i: int| 0 <= i < cached.len() && cached[i] == p;
        cached.lemma_filter_contains(pred, i);
    }
    if config.stale(cached).contains(p) {
        cached.lemma_filter_contains_rev(pred, p);
        let i = choose|i: int| 0 <= i < cached.filter(pred).len() && cached.filter(pred)[i] == p;
        cached.lemma_filter_pred(pred, i);
    }
    lemma_filter_of_own_members_empty(config.managed(), config.managed().len() as int);
    assert(config.managed().take(config.managed().len() as int) =~= config.managed());
}

proof fn lemma_filter_of_own_members_empty(s: Seq<Seq<char>>, k: int)
    requires
        0 <= k <= s.len(),
    ensures
        s.take(k).filter(|q: Seq<char>| !s.contains(q)) == Seq::<Seq<char>>::empty(),
    decreases k,
{
    reveal_with_fuel(Seq::filter, 1);
    if k > 0 {
        lemma_filter_of_own_members_empty(s, k - 1);
        assert(s.take(k).drop_last() =~= s.take(k - 1));
        assert(s.contains(s.take(k).last()));
    } else {
        assert(s.take(k) =~= Seq::<Seq<char>>::empty());
    }
}

} // verus!
