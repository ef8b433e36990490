//! Resolving installed Discord release channels to on-disk locations.

use crate::text::{
    has_prefix, lemma_lex_le_antisymmetric, lemma_lex_le_reflexive, lemma_lex_le_total,
    lemma_lex_le_transitive, lex_le, str_lex_le,
};
use vstd::prelude::*;

verus! {

/// The "flavor" (or release channel) of Discord.
#[derive(Clone, Copy, Debug, PartialEq, Eq, Structural)]
pub enum DiscordFlavor {
    /// Stable, the main release of Discord.
    Stable,
    /// "Public Test Build", more stable than Canary but less stable than Stable.
    Ptb,
    /// Used for alpha testing, not as stable as PTB.
    Canary,
    /// Used for development, staging.
    Dev,
}

/// The base folder name that a flavor is installed under.
pub open spec fn folder_name_spec(flavor: DiscordFlavor) -> Seq<char> {
    match flavor {
        DiscordFlavor::Stable => "Discord"@,
        DiscordFlavor::Ptb => "DiscordPTB"@,
        DiscordFlavor::Canary => "DiscordCanary"@,
        DiscordFlavor::Dev => "DiscordDevelopment"@,
    }
}

/// The human-readable name of a flavor.
pub open spec fn display_name_spec(flavor: DiscordFlavor) -> Seq<char> {
    match flavor {
        DiscordFlavor::Stable => "Discord Stable"@,
        DiscordFlavor::Ptb => "Discord PTB"@,
        DiscordFlavor::Canary => "Discord Canary"@,
        DiscordFlavor::Dev => "Discord Dev"@,
    }
}

impl DiscordFlavor {
    /// The name of the subfolder, under the per-user application-data root,
    /// that holds this flavor's versioned builds.
    pub fn folder_name(&self) -> (r: String)
        ensures
            r@ == folder_name_spec(*self),
    {
        match self {
            DiscordFlavor::Stable => String::from_str("Discord"),
            DiscordFlavor::Ptb => String::from_str("DiscordPTB"),
            DiscordFlavor::Canary => String::from_str("DiscordCanary"),
            DiscordFlavor::Dev => String::from_str("DiscordDevelopment"),
        }
    }

    /// The human-readable name of this flavor.
    pub fn display_name(&self) -> (r: String)
        ensures
            r@ == display_name_spec(*self),
    {
        match self {
            DiscordFlavor::Stable => String::from_str("Discord Stable"),
            DiscordFlavor::Ptb => String::from_str("Discord PTB"),
            DiscordFlavor::Canary => String::from_str("Discord Canary"),
            DiscordFlavor::Dev => String::from_str("Discord Dev"),
        }
    }
}

/// One entry of a directory listing, as a caller observed it: the entry's
/// file name and whether it is a directory or a regular file.
#[derive(Clone, Debug)]
pub struct DirEntry {
    /// The file name of the entry, without its parent path.
    pub name: String,
    /// Whether the entry is a directory.
    pub is_dir: bool,
    /// Whether the entry is a regular file.
    pub is_file: bool,
}

/// A resolved Discord installation.
#[derive(Clone, Debug)]
pub struct DiscordPath {
    /// The flavor of Discord.
    pub flavor: DiscordFlavor,
    /// The directory path of the Discord installation.
    pub directory_path: String,
    /// The path to the `app.asar` file.
    pub asar_path: String,
}

impl DiscordPath {
    /// The human-readable form of the record: the flavor's name followed by
    /// the installation directory in parentheses.
    pub fn display_string(&self) -> (r: String)
        ensures
            r@ == display_name_spec(self.flavor) + " ("@ + self.directory_path@ + ")"@,
    {
        let mut s = self.flavor.display_name();
        s.append(" (");
        s.append(self.directory_path.as_str());
        s.append(")");
        s
    }
}

/// Why a resolution did not produce an installation.
#[derive(Clone, Copy, Debug, PartialEq, Eq, Structural)]
pub enum ResolveError {
    /// The environment variable that names the per-user application-data root
    /// is not set. Nothing can be resolved for any flavor.
    EnvironmentMisconfigured,
    /// The flavor's base folder was readable, but no versioned build folder
    /// was found inside it.
    NoVersionedBuildFound,
}

/// An entry that counts as a versioned build folder: a directory whose name
/// starts with the versioned-build marker.
pub open spec fn is_candidate(e: DirEntry) -> bool {
    e.is_dir && "app-"@.is_prefix_of(e.name@)
}

/// Does the listing hold at least one versioned build folder?
pub open spec fn has_candidate(entries: Seq<DirEntry>) -> bool {
    exists|i: int| 0 <= i < entries.len() && is_candidate(entries[i])
}

/// `name` names a versioned build folder of the listing, and no versioned
/// build folder of the listing sorts after it.
pub open spec fn is_latest_build_name(entries: Seq<DirEntry>, name: Seq<char>) -> bool {
    &&& exists|i: int| 0 <= i < entries.len() && is_candidate(entries[i]) && entries[i].name@ == name
    &&& forall|i: int| 0 <= i < entries.len() && is_candidate(entries[i]) ==> lex_le(
        entries[i].name@,
        name,
    )
}

/// Selects the name of the newest versioned build folder of a listing: among
/// the directories whose name starts with the versioned-build marker, the one
/// whose name sorts last lexicographically. Returns `None` when the listing
/// holds no such directory.
pub fn select_latest_build(entries: &Vec<DirEntry>) -> (r: Option<String>)
    ensures
        match r {
            Some(name) => is_latest_build_name(entries@, name@),
            None => !has_candidate(entries@),
        },
{
    let mut best: Option<String> = None;
    let mut idx: usize = 0;
    while idx < entries.len()
        invariant
            idx <= entries@.len(),
            match best {
                None => forall|j: int| 0 <= j < idx ==> !is_candidate(entries@[j]),
                Some(b) => {
                    &&& exists|j: int|
                        0 <= j < idx && is_candidate(entries@[j]) && entries@[j].name@ == b@
                    &&& forall|j: int|
                        0 <= j < idx && is_candidate(entries@[j]) ==> lex_le(entries@[j].name@, b@)
                },
            },
        decreases entries@.len() - idx,
    {
        let e = &entries[idx];
        if e.is_dir && has_prefix(e.name.as_str(), "app-") {
            let replace: bool = match &best {
                None => true,
                Some(b) => str_lex_le(b.as_str(), e.name.as_str()),
            };
            if replace {
                proof {
                    lemma_lex_le_reflexive(e.name@);
                    if best is Some {
                        let b = best->Some_0;
                        assert forall|j: int|
                            0 <= j < idx + 1 && is_candidate(entries@[j]) implies lex_le(
                            entries@[j].name@,
                            e.name@,
                        ) by {
                            if j < idx {
                                lemma_lex_le_transitive(entries@[j].name@, b@, e.name@);
                            }
                        }
                    }
                }
                best = Some(e.name.clone());
            } else {
                proof {
                    let b = best->Some_0;
                    lemma_lex_le_total(b@, e.name@);
                    assert(lex_le(e.name@, b@));
                }
            }
        }
        idx = idx + 1;
    }
    best
}

/// The path of a child under a base directory.
pub open spec fn joined(base: Seq<char>, child: Seq<char>) -> Seq<char> {
    base + "/"@ + child
}

/// The path of the resource archive inside an installation directory: a
/// fixed relative subpath, never checked against the filesystem.
pub open spec fn asar_path_spec(dir: Seq<char>) -> Seq<char> {
    dir + "/resources/app.asar"@
}

/// Joins a child name onto a base directory path.
pub fn join_path(base: &str, child: &str) -> (r: String)
    ensures
        r@ == joined(base@, child@),
{
    let mut s = String::from_str(base);
    s.append("/");
    s.append(child);
    s
}

/// Derives the resource archive path from an installation directory path.
pub fn asar_path_of(dir: &str) -> (r: String)
    ensures
        r@ == asar_path_spec(dir@),
{
    let mut s = String::from_str(dir);
    s.append("/resources/app.asar");
    s
}

impl DiscordFlavor {
    /// The base folder searched for this flavor's versioned builds: the
    /// flavor's folder name under the per-user application-data root. When
    /// the root is absent the whole resolution is misconfigured, for every
    /// flavor alike.
    pub fn base_directory(&self, local_app_data: Option<&String>) -> (r: Result<
        String,
        ResolveError,
    >)
        ensures
            match local_app_data {
                Some(root) => {
                    &&& r is Ok
                    &&& r->Ok_0@ == joined(root@, folder_name_spec(*self))
                },
                None => {
                    &&& r is Err
                    &&& r->Err_0 == ResolveError::EnvironmentMisconfigured
                },
            },
    {
        match local_app_data {
            Some(root) => {
                let folder = self.folder_name();
                Ok(join_path(root.as_str(), folder.as_str()))
            },
            None => Err(ResolveError::EnvironmentMisconfigured),
        }
    }
}

/// `p` is the record that resolving `flavor` over the listing `entries` of
/// the base directory `dir` must produce: its installation directory is the
/// newest versioned build folder of the listing, joined under `dir`, and its
/// archive path is the fixed subpath inside that directory.
pub open spec fn is_resolved_record(
    flavor: DiscordFlavor,
    dir: Seq<char>,
    entries: Seq<DirEntry>,
    p: DiscordPath,
) -> bool {
    &&& p.flavor == flavor
    &&& exists|name: Seq<char>|
        is_latest_build_name(entries, name) && p.directory_path@ == joined(dir, name)
    &&& p.asar_path@ == asar_path_spec(p.directory_path@)
}

/// What resolving one flavor returns, for every input. An unreadable base
/// folder (`listing` is `None`) is the expected "not installed" outcome and
/// yields no records; a readable folder without a versioned build folder is
/// an error; otherwise exactly one record is returned, built from the newest
/// versioned build folder.
pub open spec fn resolve_post(
    flavor: DiscordFlavor,
    dir: Seq<char>,
    listing: Option<Seq<DirEntry>>,
    r: Result<Vec<DiscordPath>, ResolveError>,
) -> bool {
    match listing {
        None => r is Ok && r->Ok_0@.len() == 0,
        Some(entries) => {
            if has_candidate(entries) {
                &&& r is Ok
                &&& r->Ok_0@.len() == 1
                &&& is_resolved_record(flavor, dir, entries, r->Ok_0@[0])
            } else {
                &&& r is Err
                &&& r->Err_0 == ResolveError::NoVersionedBuildFound
            }
        },
    }
}

/// The view of an optional borrowed listing.
pub open spec fn listing_view(listing: Option<&Vec<DirEntry>>) -> Option<Seq<DirEntry>> {
    match listing {
        Some(entries) => Some(entries@),
        None => None,
    }
}

/// Handles locating Discord installations.
pub trait DiscordPathResolver {
    /// The flavor that the implementor resolves.
    spec fn spec_flavor(&self) -> DiscordFlavor;

    /// Resolves the paths to Discord installations from a listing of the
    /// flavor's base directory, handed over by the caller: `None` when the
    /// directory could not be read, the entries otherwise.
    fn resolve_discord_paths(&self, directory_path: &String, listing: Option<&Vec<DirEntry>>) -> (r:
        Result<Vec<DiscordPath>, ResolveError>)
        ensures
            resolve_post(self.spec_flavor(), directory_path@, listing_view(listing), r),
    ;
}

impl DiscordPathResolver for DiscordFlavor {
    open spec fn spec_flavor(&self) -> DiscordFlavor {
        *self
    }

    fn resolve_discord_paths(&self, directory_path: &String, listing: Option<&Vec<DirEntry>>) -> (r:
        Result<Vec<DiscordPath>, ResolveError>)
        ensures
            resolve_post(self.spec_flavor(), directory_path@, listing_view(listing), r),
    {
        let entries = match listing {
            None => {
                return Ok(Vec::new());
            },
            Some(entries) => entries,
        };
        match select_latest_build(entries) {
            None => Err(ResolveError::NoVersionedBuildFound),
            Some(name) => {
                let dir = join_path(directory_path.as_str(), name.as_str());
                let asar = asar_path_of(dir.as_str());
                let record = DiscordPath { flavor: *self, directory_path: dir, asar_path: asar };
                proof {
                    assert(is_latest_build_name(entries@, name@) && record.directory_path@
                        == joined(directory_path@, name@));
                }
                let mut records: Vec<DiscordPath> = Vec::new();
                records.push(record);
                Ok(records)
            },
        }
    }
}

/// Resolves the paths to Discord installations of one flavor, from a listing
/// of the flavor's base directory.
pub fn resolve_discord_paths(
    flavor: DiscordFlavor,
    directory_path: &String,
    listing: Option<&Vec<DirEntry>>,
) -> (r: Result<Vec<DiscordPath>, ResolveError>)
    ensures
        resolve_post(flavor, directory_path@, listing_view(listing), r),
{
    flavor.resolve_discord_paths(directory_path, listing)
}

/// The view of a record: its flavor and the two path views. Two records with
/// the same view carry the same content.
pub open spec fn record_view(p: DiscordPath) -> (DiscordFlavor, Seq<char>, Seq<char>) {
    (p.flavor, p.directory_path@, p.asar_path@)
}

/// Resolution holds no hidden state: any two outcomes that meet the
/// resolution contract for the same flavor, base directory and listing agree,
/// record for record. Resolving twice over an unchanged filesystem therefore
/// yields identical results.
pub proof fn lemma_resolution_deterministic(
    flavor: DiscordFlavor,
    dir: Seq<char>,
    listing: Option<Seq<DirEntry>>,
    r1: Result<Vec<DiscordPath>, ResolveError>,
    r2: Result<Vec<DiscordPath>, ResolveError>,
)
    requires
        resolve_post(flavor, dir, listing, r1),
        resolve_post(flavor, dir, listing, r2),
    ensures
        r1 is Ok <==> r2 is Ok,
        r1 is Ok ==> r1->Ok_0@.len() == r2->Ok_0@.len(),
        r1 is Ok ==> forall|i: int|
            0 <= i < r1->Ok_0@.len() ==> record_view(r1->Ok_0@[i]) == record_view(r2->Ok_0@[i]),
        r1 is Err ==> r1->Err_0 == r2->Err_0,
{
    if listing is Some && has_candidate(listing->Some_0) {
        let entries = listing->Some_0;
        let p1 = r1->Ok_0@[0];
        let p2 = r2->Ok_0@[0];
        let n1 = choose|name: Seq<char>|
            is_latest_build_name(entries, name) && p1.directory_path@ == joined(dir, name);
        let n2 = choose|name: Seq<char>|
            is_latest_build_name(entries, name) && p2.directory_path@ == joined(dir, name);
        assert(is_latest_build_name(entries, n1) && p1.directory_path@ == joined(dir, n1));
        assert(is_latest_build_name(entries, n2) && p2.directory_path@ == joined(dir, n2));
        let i1 = choose|i: int|
            0 <= i < entries.len() && is_candidate(entries[i]) && entries[i].name@ == n1;
        let i2 = choose|i: int|
            0 <= i < entries.len() && is_candidate(entries[i]) && entries[i].name@ == n2;
        assert(lex_le(entries[i1].name@, n2));
        assert(lex_le(entries[i2].name@, n1));
        lemma_lex_le_antisymmetric(n1, n2);
        assert(record_view(p1) == record_view(p2));
    }
}

/// No two flavors share a search root: the four base folder names are
/// pairwise distinct.
pub proof fn lemma_folder_names_distinct(a: DiscordFlavor, b: DiscordFlavor)
    requires
        a != b,
    ensures
        folder_name_spec(a) != folder_name_spec(b),
{
    reveal_strlit("Discord");
    reveal_strlit("DiscordPTB");
    reveal_strlit("DiscordCanary");
    reveal_strlit("DiscordDevelopment");
    assert("Discord"@.len() == 7);
    assert("DiscordPTB"@.len() == 10);
    assert("DiscordCanary"@.len() == 13);
    assert("DiscordDevelopment"@.len() == 18);
}

} // verus!
