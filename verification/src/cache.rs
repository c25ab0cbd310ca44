use vstd::prelude::*;
use crate::paths::{join_path, spec_path_join};
use crate::text::{opt_view, views};

verus! {

#[verifier::external_type_specification]
#[verifier::external_body]
pub struct ExJsonError(serde_json::Error);

/// The text that `serde_json::to_string_pretty` writes for a JSON object
/// with the single field `field` whose value is the list of strings `items`.
pub uninterp spec fn spec_pretty_json_field(field: Seq<char>, items: Seq<Seq<char>>) -> Seq<char>;

/// Calls `serde_json::to_string_pretty` on a one-entry map from `field` to
/// `items`, which serializes as a JSON object with that single field. The
/// result is the name above of the arguments. The map's key is a string and
/// the output is written into a `Vec<u8>`, whose writes cannot fail, so the
/// call always returns `Ok`.
#[verifier::external_body]
fn pretty_json_field(field: &str, items: &Vec<String>) -> (r: Result<String, serde_json::Error>)
    ensures
        r is Ok,
        r matches Ok(t) ==> t@ == spec_pretty_json_field(field@, views(items@)),
{
    let mut object = std::collections::BTreeMap::new();
    object.insert(field, items);
    serde_json::to_string_pretty(&object)
}

/// The cache document that records `paths`: a JSON object whose field
/// `created_files` lists them, as `serde_json` pretty-prints it.
pub open spec fn spec_cache_json(paths: Seq<Seq<char>>) -> Seq<char> {
    spec_pretty_json_field("created_files"@, paths)
}

/// Why the cache could not be loaded or stored.
#[derive(Debug, Clone, Copy, PartialEq, Eq)]
pub enum CacheError {
    /// No cache location was given, and neither `XDG_CACHE_HOME` nor `HOME`
    /// is set.
    NoCacheDir,
    /// The cache file could not be read and the user chose not to go on.
    Abandoned,
    /// The paths could not be written as JSON.
    Encode,
}

impl CacheError {
    /// The text shown to the user for this error.
    pub open spec fn spec_message(self) -> Seq<char> {
        match self {
            CacheError::NoCacheDir => "XDG_CACHE_HOME wasn't set, nor was HOME!"@,
            CacheError::Abandoned => "Unable to continue! Please rectify the cache file issue"@,
            CacheError::Encode => "Unable to encode the cache file"@,
        }
    }

    /// The text shown to the user for this error.
    pub fn message(&self) -> (r: String)
        ensures
            r@ == self.spec_message(),
    {
        match self {
            CacheError::NoCacheDir => String::from_str("XDG_CACHE_HOME wasn't set, nor was HOME!"),
            CacheError::Abandoned => String::from_str(
                "Unable to continue! Please rectify the cache file issue",
            ),
            CacheError::Encode => String::from_str("Unable to encode the cache file"),
        }
    }
}

/// The paths that earlier runs created, where they are kept, and the
/// document to write back once this run has succeeded.
pub struct Cache {
    created_files: Vec<String>,
    cache_path: String,
    json: Option<String>,
}

impl Cache {
    /// The paths that earlier runs created.
    pub closed spec fn created(&self) -> Seq<String> {
        self.created_files@
    }

    /// Where the cache file lives.
    pub closed spec fn path(&self) -> Seq<char> {
        self.cache_path@
    }

    /// The document waiting to be written, if one was stored.
    pub closed spec fn pending(&self) -> Option<Seq<char>> {
        opt_view(self.json)
    }

    /// A cache that records `created_files`, kept at `cache_path`, with
    /// nothing waiting to be written.
    pub fn new(created_files: Vec<String>, cache_path: String) -> (r: Cache)
        ensures
            r.created() == created_files@,
            r.path() == cache_path@,
            r.pending() is None,
    {
        Cache { created_files: created_files, cache_path: cache_path, json: None }
    }

    /// The paths that earlier runs created.
    pub fn created_files(&self) -> (r: &Vec<String>)
        ensures
            r@ == self.created(),
    {
        &self.created_files
    }

    /// Where the cache file lives.
    pub fn cache_path(&self) -> (r: &String)
        ensures
            r@ == self.path(),
    {
        &self.cache_path
    }

    /// Prepares the document that records `keys`, to be written once the run
    /// has succeeded. The paths created by earlier runs stay as they are.
    pub fn store(&mut self, keys: Vec<String>) -> (r: Result<(), CacheError>)
        ensures
            r is Ok,
            final(self).pending() == Some(spec_cache_json(views(keys@))),
            final(self).created() == old(self).created(),
            final(self).path() == old(self).path(),
    {
        match pretty_json_field("created_files", &keys) {
            Ok(json) => {
                self.json = Some(json);
                Ok(())
            },
            Err(_) => Err(CacheError::Encode),
        }
    }

    /// Hands out the document waiting to be written, leaving none.
    pub fn take_json(&mut self) -> (r: Option<String>)
        ensures
            opt_view(r) == old(self).pending(),
            final(self).pending() is None,
            final(self).created() == old(self).created(),
            final(self).path() == old(self).path(),
    {
        self.json.take()
    }
}

/// The directory that holds the cache: the one given, else `XDG_CACHE_HOME`,
/// else `.cache` under `HOME`.
pub open spec fn spec_cache_dir(
    given: Option<Seq<char>>,
    xdg_cache_home: Option<Seq<char>>,
    home: Option<Seq<char>>,
) -> Option<Seq<char>> {
    match given {
        Some(d) => Some(d),
        None => match xdg_cache_home {
            Some(d) => Some(d),
            None => match home {
                Some(h) => Some(spec_path_join(h, ".cache"@)),
                None => None,
            },
        },
    }
}

/// The cache directory given in the settings always wins over the
/// environment; `XDG_CACHE_HOME` wins over `HOME`; and there is no place for
/// the cache only when none of the three is there.
pub proof fn lemma_cache_dir_precedence(
    given: Option<Seq<char>>,
    xdg_cache_home: Option<Seq<char>>,
    home: Option<Seq<char>>,
)
    ensures
        given matches Some(d) ==> spec_cache_dir(given, xdg_cache_home, home) == Some(d),
        given is None ==> (xdg_cache_home matches Some(x) ==> spec_cache_dir(
            given,
            xdg_cache_home,
            home,
        ) == Some(x)),
        given is None ==> (xdg_cache_home is None ==> (home matches Some(h) ==> spec_cache_dir(
            given,
            xdg_cache_home,
            home,
        ) == Some(spec_path_join(h, ".cache"@)))),
        spec_cache_dir(given, xdg_cache_home, home) is None <==> (given is None && xdg_cache_home
            is None && home is None),
{
}

/// Where the cache file lives: `desym.cache` in the directory chosen as
/// `spec_cache_dir` says, or an error when there is none.
pub fn resolve_cache_path(
    given: Option<String>,
    xdg_cache_home: Option<String>,
    home: Option<String>,
) -> (r: Result<String, CacheError>)
    ensures
        match spec_cache_dir(opt_view(given), opt_view(xdg_cache_home), opt_view(home)) {
            Some(d) => r matches Ok(p) && p@ == spec_path_join(d, "desym.cache"@),
            None => r == Err::<String, CacheError>(CacheError::NoCacheDir),
        },
        given matches Some(d) ==> (r matches Ok(p) && p@ == spec_path_join(d@, "desym.cache"@)),
        given is None ==> (xdg_cache_home matches Some(x) ==> (r matches Ok(p) && p@ == spec_path_join(
            x@,
            "desym.cache"@,
        ))),
        given is None ==> (xdg_cache_home is None ==> (home matches Some(h) ==> (r matches Ok(p) && p@
            == spec_path_join(spec_path_join(h@, ".cache"@), "desym.cache"@)))),
        r is Err <==> (given is None && xdg_cache_home is None && home is None),
{
    let dir = match given {
        Some(d) => d,
        None => match xdg_cache_home {
            Some(d) => d,
            None => match home {
                Some(h) => join_path(h.as_str(), ".cache"),
                None => {
                    return Err(CacheError::NoCacheDir);
                },
            },
        },
    };
    Ok(join_path(dir.as_str(), "desym.cache"))
}

} // verus!

verus! {

/// Where loading the cache stands.
#[derive(Debug, Clone, Copy, PartialEq, Eq, Structural)]
pub enum LoadStage {
    /// Waiting to learn whether the cache file exists.
    Probing,
    /// Waiting for the file's content, read and decoded.
    Parsing,
    /// The file could not be decoded; waiting for the user's answer.
    Confirming,
    /// Nothing more to do.
    Finished,
}

/// What the program found out, handed back to the loader.
pub enum LoadEvent {
    /// Whether the cache file exists.
    Probed(bool),
    /// The paths the file records, or why it could not be decoded.
    Parsed(Result<Vec<String>, String>),
    /// Whether the user chose to go on with an empty cache.
    Answered(bool),
}

/// What the loader asks the program to do next.
pub enum LoadAction {
    /// Find out whether this file exists.
    Probe(String),
    /// Read this file and decode the paths it records.
    ReadAndParse(String),
    /// Show `warning`, then ask `question` with a yes/no answer.
    Confirm { warning: String, question: String },
    /// Loading is over, with this outcome.
    Finish(Result<Cache, CacheError>),
}

/// The decisions of loading the cache: where it lives, whether there is one,
/// and what happens when it cannot be decoded.
pub struct CacheLoad {
    path: String,
    stage: LoadStage,
}

/// The warning shown when the cache file cannot be decoded, for the given
/// decoding error.
pub open spec fn spec_corrupt_warning(detail: Seq<char>) -> Seq<char> {
    "Unable to read cache file! This may be due to a format update, or incorrect modification of the cache file: "@
        + detail
}

/// The question asked before a cache that cannot be decoded is replaced.
pub open spec fn spec_overwrite_question() -> Seq<char> {
    "Would you like to continue? The cache file will be overwritten, and updated as needed"@
}

/// `c` is a cache that records `files` at `path`, with nothing to write yet.
pub open spec fn is_loaded(c: Cache, files: Seq<String>, path: Seq<char>) -> bool {
    c.created() == files && c.path() == path && c.pending() is None
}

impl CacheLoad {
    /// Where the cache file lives.
    pub closed spec fn spec_path(&self) -> Seq<char> {
        self.path@
    }

    /// Where loading stands.
    pub closed spec fn spec_stage(&self) -> LoadStage {
        self.stage
    }

    /// Whether `event` answers the action that is pending.
    pub open spec fn spec_awaits(&self, event: &LoadEvent) -> bool {
        match event {
            LoadEvent::Probed(_) => self.spec_stage() == LoadStage::Probing,
            LoadEvent::Parsed(_) => self.spec_stage() == LoadStage::Parsing,
            LoadEvent::Answered(_) => self.spec_stage() == LoadStage::Confirming,
        }
    }

    /// Whether `event` answers the action that is pending.
    pub fn awaits(&self, event: &LoadEvent) -> (r: bool)
        ensures
            r == self.spec_awaits(event),
    {
        match event {
            LoadEvent::Probed(_) => match self.stage {
                LoadStage::Probing => true,
                _ => false,
            },
            LoadEvent::Parsed(_) => match self.stage {
                LoadStage::Parsing => true,
                _ => false,
            },
            LoadEvent::Answered(_) => match self.stage {
                LoadStage::Confirming => true,
                _ => false,
            },
        }
    }

    /// Takes in what the program found out and says what to do next. A
    /// missing file gives an empty cache; a file that decodes gives the paths
    /// it records; a file that does not decode is only replaced by an empty
    /// cache once the user agrees, and otherwise loading fails.
    pub fn advance(&mut self, event: LoadEvent) -> (action: LoadAction)
        requires
            old(self).spec_awaits(&event),
        ensures
            final(self).spec_path() == old(self).spec_path(),
            match event {
                LoadEvent::Probed(false) => final(self).spec_stage() == LoadStage::Finished && (
                action matches LoadAction::Finish(Ok(c)) && is_loaded(
                    c,
                    Seq::empty(),
                    old(self).spec_path(),
                )),
                LoadEvent::Probed(true) => final(self).spec_stage() == LoadStage::Parsing && (
                action matches LoadAction::ReadAndParse(p) && p@ == old(self).spec_path()),
                LoadEvent::Parsed(Ok(files)) => final(self).spec_stage() == LoadStage::Finished && (
                action matches LoadAction::Finish(Ok(c)) && is_loaded(
                    c,
                    files@,
                    old(self).spec_path(),
                )),
                LoadEvent::Parsed(Err(detail)) => final(self).spec_stage() == LoadStage::Confirming
                    && (action matches LoadAction::Confirm { warning, question } && warning@
                    == spec_corrupt_warning(detail@) && question@ == spec_overwrite_question()),
                LoadEvent::Answered(true) => final(self).spec_stage() == LoadStage::Finished && (
                action matches LoadAction::Finish(Ok(c)) && is_loaded(
                    c,
                    Seq::empty(),
                    old(self).spec_path(),
                )),
                LoadEvent::Answered(false) => final(self).spec_stage() == LoadStage::Finished && (
                action matches LoadAction::Finish(Err(e)) && e == CacheError::Abandoned),
            },
    {
        match event {
            LoadEvent::Probed(exists) => {
                if exists {
                    self.stage = LoadStage::Parsing;
                    LoadAction::ReadAndParse(self.path.clone())
                } else {
                    self.stage = LoadStage::Finished;
                    LoadAction::Finish(Ok(Cache::new(Vec::new(), self.path.clone())))
                }
            },
            LoadEvent::Parsed(Ok(files)) => {
                self.stage = LoadStage::Finished;
                LoadAction::Finish(Ok(Cache::new(files, self.path.clone())))
            },
            LoadEvent::Parsed(Err(detail)) => {
                self.stage = LoadStage::Confirming;
                let mut warning = String::from_str(
                    "Unable to read cache file! This may be due to a format update, or incorrect modification of the cache file: ",
                );
                warning.append(detail.as_str());
                let question = String::from_str(
                    "Would you like to continue? The cache file will be overwritten, and updated as needed",
                );
                LoadAction::Confirm { warning, question }
            },
            LoadEvent::Answered(go_on) => {
                self.stage = LoadStage::Finished;
                if go_on {
                    LoadAction::Finish(Ok(Cache::new(Vec::new(), self.path.clone())))
                } else {
                    LoadAction::Finish(Err(CacheError::Abandoned))
                }
            },
        }
    }
}

/// Starts loading: works out where the cache lives (see
/// `resolve_cache_path`) and asks whether it exists, or finishes with the
/// error when there is no place for it.
pub fn read(given: Option<String>, xdg_cache_home: Option<String>, home: Option<String>) -> (r: (
    CacheLoad,
    LoadAction,
))
    ensures
        match spec_cache_dir(opt_view(given), opt_view(xdg_cache_home), opt_view(home)) {
            Some(d) => r.0.spec_stage() == LoadStage::Probing && r.0.spec_path() == spec_path_join(
                d,
                "desym.cache"@,
            ) && (r.1 matches LoadAction::Probe(p) && p@ == r.0.spec_path()),
            None => r.0.spec_stage() == LoadStage::Finished && (r.1 matches LoadAction::Finish(
                Err(e),
            ) && e == CacheError::NoCacheDir),
        },
        given matches Some(d) ==> r.0.spec_path() == spec_path_join(d@, "desym.cache"@),
        given is None ==> (xdg_cache_home matches Some(x) ==> r.0.spec_path() == spec_path_join(
            x@,
            "desym.cache"@,
        )),
{
    match resolve_cache_path(given, xdg_cache_home, home) {
        Ok(p) => {
            let probe = p.clone();
            (CacheLoad { path: p, stage: LoadStage::Probing }, LoadAction::Probe(probe))
        },
        Err(e) => (
            CacheLoad { path: String::new(), stage: LoadStage::Finished },
            LoadAction::Finish(Err(e)),
        ),
    }
}


} // verus!
