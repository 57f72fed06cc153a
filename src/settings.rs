//! What the engine reads from the application settings: which repository
//! a command runs in, and how a file's bytes are decoded to text.

use vstd::prelude::*;
use crate::conflict::opt_view;
use crate::staging::{glob_accepts, glob_matches, slashed, slashed_string};
use crate::text::{chars_of, string_of, trim, trim_chars};
use crate::types::{AppSettings, RepoEntry};

verus! {

// ---------------------------------------------------------------------------
// Repository resolution
// ---------------------------------------------------------------------------

/// The first repository entry whose id is `id`; `repos.len()` if none.
pub open spec fn repo_index_from(settings: AppSettings, id: Seq<char>, from: int) -> int
    decreases settings.repos@.len() - from,
{
    if from < 0 || from >= settings.repos@.len() {
        settings.repos@.len() as int
    } else if settings.repos@[from].id@ == id {
        from
    } else {
        repo_index_from(settings, id, from + 1)
    }
}

/// The working directory a command runs in: an explicit, non-blank path
/// (trimmed), else the path of the active repository.
pub open spec fn resolved_repo(settings: AppSettings, explicit: Option<Seq<char>>) -> Result<Seq<char>, Seq<char>> {
    if explicit is Some && trim(explicit.unwrap()).len() > 0 {
        Ok(trim(explicit.unwrap()))
    } else {
        match settings.active_repo_id {
            None => Err("No active repository selected"@),
            Some(id) => {
                let i = repo_index_from(settings, id@, 0);
                if i < settings.repos@.len() {
                    Ok(settings.repos@[i].path@)
                } else {
                    Err("Active repository not found in settings"@)
                }
            },
        }
    }
}

pub fn resolve_repo_path(settings: &AppSettings, explicit_path: Option<String>) -> (r: Result<String, String>)
    ensures
        match r {
            Ok(p) => resolved_repo(*settings, opt_view(explicit_path)) == Ok::<Seq<char>, Seq<char>>(p@),
            Err(e) => resolved_repo(*settings, opt_view(explicit_path)) == Err::<Seq<char>, Seq<char>>(e@),
        },
{
    match explicit_path {
        Some(p) => {
            let cs = chars_of(p.as_str());
            let t = trim_chars(cs.as_slice());
            if t.len() > 0 {
                return Ok(string_of(t.as_slice()));
            }
        },
        None => {},
    }
    get_active_repo_path(settings)
}

pub fn get_active_repo_path(settings: &AppSettings) -> (r: Result<String, String>)
    ensures
        match r {
            Ok(p) => resolved_repo(*settings, None) == Ok::<Seq<char>, Seq<char>>(p@),
            Err(e) => resolved_repo(*settings, None) == Err::<Seq<char>, Seq<char>>(e@),
        },
{
    let id = match &settings.active_repo_id {
        Some(id) => id,
        None => {
            return Err("No active repository selected".to_string());
        },
    };
    let mut i: usize = 0;
    while i < settings.repos.len()
        invariant
            i <= settings.repos@.len(),
            settings.active_repo_id == Some(*id),
            repo_index_from(*settings, id@, i as int) == repo_index_from(*settings, id@, 0),
        decreases settings.repos@.len() - i,
    {
        if settings.repos[i].id == *id {
            return Ok(settings.repos[i].path.clone());
        }
        i = i + 1;
    }
    Err("Active repository not found in settings".to_string())
}

// ---------------------------------------------------------------------------
// Decoding
// ---------------------------------------------------------------------------

/// Whether `encoding_rs` knows `label` as an encoding name.
pub uninterp spec fn label_known(label: Seq<char>) -> bool;

/// The text that the encoding named `label` makes of `bytes` (a leading
/// byte-order mark honoured, malformed sequences replaced).
pub uninterp spec fn decoded_as(label: Seq<char>, bytes: Seq<u8>) -> Seq<char>;

/// The text of `bytes` as UTF-8, malformed sequences replaced by U+FFFD.
pub uninterp spec fn lossy_utf8(bytes: Seq<u8>) -> Seq<char>;

/// Relies on `encoding_rs::Encoding::for_label` and `Encoding::decode`:
/// none for an unknown label, else the decoded text, which depends on the
/// label and the bytes alone. `decode` panics when sizing its output
/// overflows `usize` (several times the input length), hence the bound.
#[verifier::external_body]
fn decode_labeled(label: &str, data: &[u8]) -> (r: Option<String>)
    requires
        data@.len() <= usize::MAX / 8,
    ensures
        r is Some <==> label_known(label@),
        r matches Some(s) ==> s@ == decoded_as(label@, data@),
{
    match encoding_rs::Encoding::for_label(label.as_bytes()) {
        Some(enc) => Some(enc.decode(data).0.into_owned()),
        None => None,
    }
}

/// Relies on `String::from_utf8_lossy`: the result depends on the bytes alone.
#[verifier::external_body]
fn utf8_lossy(data: &[u8]) -> (r: String)
    ensures
        r@ == lossy_utf8(data@),
{
    String::from_utf8_lossy(data).into_owned()
}

/// The first entry of the encoding table whose glob matches the path
/// (written with `/`); `table.len()` if none.
pub open spec fn encoding_index_from(table: Seq<(String, String)>, path: Seq<char>, from: int) -> int
    decreases table.len() - from,
{
    if from < 0 || from >= table.len() {
        table.len() as int
    } else if glob_accepts(table[from].0@, slashed(path)) {
        from
    } else {
        encoding_index_from(table, path, from + 1)
    }
}

pub open spec fn file_encoding(settings: AppSettings, path: Seq<char>) -> Option<Seq<char>> {
    let t = settings.file_encodings@;
    let i = encoding_index_from(t, path, 0);
    if i < t.len() {
        Some(t[i].1@)
    } else {
        None
    }
}

/// The encoding configured for `path`: that of the first table entry whose
/// glob matches it.
pub fn resolve_file_encoding(path: &str, settings: &AppSettings) -> (r: Option<String>)
    ensures
        opt_view(r) == file_encoding(*settings, path@),
{
    let normalized = slashed_string(path);
    let t = &settings.file_encodings;
    let mut i: usize = 0;
    while i < t.len()
        invariant
            i <= t@.len(),
            *t == settings.file_encodings,
            normalized@ == slashed(path@),
            encoding_index_from(t@, path@, i as int) == encoding_index_from(t@, path@, 0),
        decreases t@.len() - i,
    {
        if glob_matches(t[i].0.as_str(), normalized.as_str()) {
            return Some(t[i].1.clone());
        }
        i = i + 1;
    }
    None
}

/// The text of a file's bytes: in the override encoding or else the one the
/// settings give the path, where `encoding_rs` knows that name; otherwise
/// lossy UTF-8.
pub open spec fn decoded_text(data: Seq<u8>, name: Option<Seq<char>>) -> Seq<char> {
    match name {
        Some(n) => if label_known(n) {
            decoded_as(n, data)
        } else {
            lossy_utf8(data)
        },
        None => lossy_utf8(data),
    }
}

pub fn decode_bytes(data: &[u8], path: &str, settings: &AppSettings, override_encoding: Option<String>) -> (r:
    String)
    requires
        data@.len() <= usize::MAX / 8,
    ensures
        r@ == decoded_text(
            data@,
            match override_encoding {
                Some(o) => Some(o@),
                None => file_encoding(*settings, path@),
            },
        ),
{
    let name = match override_encoding {
        Some(o) => Some(o),
        None => resolve_file_encoding(path, settings),
    };
    match name {
        Some(n) => match decode_labeled(n.as_str(), data) {
            Some(text) => text,
            None => utf8_lossy(data),
        },
        None => utf8_lossy(data),
    }
}

} // verus!

verus! {

// ---------------------------------------------------------------------------
// The repository list
// ---------------------------------------------------------------------------

pub struct RepoView {
    pub id: Seq<char>,
    pub name: Seq<char>,
    pub path: Seq<char>,
}

impl View for RepoEntry {
    type V = RepoView;

    open spec fn view(&self) -> RepoView {
        RepoView { id: self.id@, name: self.name@, path: self.path@ }
    }
}

pub open spec fn repo_views(v: Seq<RepoEntry>) -> Seq<RepoView> {
    v.map_values(|r: RepoEntry| r@)
}

pub open spec fn ids(v: Seq<String>) -> Seq<Seq<char>> {
    v.map_values(|s: String| s@)
}

/// `s` without the entries equal to `x`, in order.
pub open spec fn without(s: Seq<Seq<char>>, x: Seq<char>) -> Seq<Seq<char>>
    decreases s.len(),
{
    if s.len() == 0 {
        s
    } else if s.last() == x {
        without(s.drop_last(), x)
    } else {
        without(s.drop_last(), x).push(s.last())
    }
}

/// `s` without the repositories whose id is `id`, in order.
pub open spec fn without_repo(s: Seq<RepoView>, id: Seq<char>) -> Seq<RepoView>
    decreases s.len(),
{
    if s.len() == 0 {
        s
    } else if s.last().id == id {
        without_repo(s.drop_last(), id)
    } else {
        without_repo(s.drop_last(), id).push(s.last())
    }
}

pub open spec fn has_repo(s: Seq<RepoView>, id: Seq<char>) -> bool {
    exists|i: int| 0 <= i < s.len() && (#[trigger] s[i]).id == id
}

pub open spec fn with_id(s: Seq<Seq<char>>, x: Seq<char>) -> Seq<Seq<char>> {
    if s.contains(x) {
        s
    } else {
        s.push(x)
    }
}

/// The open repository to make active when the one at `pos` of `open`
/// closes: its successor, else its predecessor, else none.
pub open spec fn next_active(open: Seq<Seq<char>>, pos: int) -> Option<Seq<char>> {
    let rest = open.remove(pos);
    if pos < rest.len() {
        Some(rest[pos])
    } else if pos > 0 {
        Some(rest[pos - 1])
    } else {
        None
    }
}

/// A key's entry in a table of (key, value) pairs; `t.len()` if none.
pub open spec fn key_index_from(t: Seq<(Seq<char>, Seq<char>)>, k: Seq<char>, from: int) -> int
    decreases t.len() - from,
{
    if from < 0 || from >= t.len() {
        t.len() as int
    } else if t[from].0 == k {
        from
    } else {
        key_index_from(t, k, from + 1)
    }
}

pub open spec fn table_view(t: Seq<(String, String)>) -> Seq<(Seq<char>, Seq<char>)> {
    t.map_values(|p: (String, String)| (p.0@, p.1@))
}

/// No key appears twice: the tables stand for maps from key to value.
pub open spec fn keys_unique(t: Seq<(Seq<char>, Seq<char>)>) -> bool {
    forall|i: int, j: int| 0 <= i < j < t.len() ==> (#[trigger] t[i]).0 != (#[trigger] t[j]).0
}

impl AppSettings {
    /// Both glob-keyed tables hold each key once.
    pub open spec fn well_formed(&self) -> bool {
        keys_unique(table_view(self.repo_filters@)) && keys_unique(table_view(self.file_encodings@))
    }
}

proof fn lemma_key_absent(t: Seq<(Seq<char>, Seq<char>)>, k: Seq<char>, from: int)
    requires
        0 <= from,
        key_index_from(t, k, from) >= t.len(),
    ensures
        forall|j: int| from <= j < t.len() ==> (#[trigger] t[j]).0 != k,
    decreases t.len() - from,
{
    if from < t.len() {
        lemma_key_absent(t, k, from + 1);
    }
}

proof fn lemma_key_found(t: Seq<(Seq<char>, Seq<char>)>, k: Seq<char>, from: int)
    requires
        0 <= from,
        key_index_from(t, k, from) < t.len(),
    ensures
        from <= key_index_from(t, k, from),
        t[key_index_from(t, k, from)].0 == k,
    decreases t.len() - from,
{
    if from < t.len() && t[from].0 != k {
        lemma_key_found(t, k, from + 1);
    }
}

/// Setting a filter keeps each repository's key once.
pub proof fn lemma_filters_keep_keys_unique(t: Seq<(Seq<char>, Seq<char>)>, repo: Seq<char>, filter: Seq<char>)
    requires
        keys_unique(t),
    ensures
        keys_unique(filters_after(t, repo, filter)),
{
    let i = key_index_from(t, repo, 0);
    let r = filters_after(t, repo, filter);
    if i < t.len() {
        lemma_key_found(t, repo, 0);
        if filter.len() == 0 {
            assert(r == t.remove(i));
            assert(r.len() == t.len() - 1);
            assert forall|a: int, b: int| 0 <= a < b < r.len() implies (#[trigger] r[a]).0 != (#[trigger] r[b]).0 by {
                let a2 = if a < i { a } else { a + 1 };
                let b2 = if b < i { b } else { b + 1 };
                assert(r[a] == t[a2]);
                assert(r[b] == t[b2]);
                assert(t[a2].0 != t[b2].0);
            }
        } else {
            assert(r == t.update(i, (repo, filter)));
            assert forall|a: int, b: int| 0 <= a < b < r.len() implies (#[trigger] r[a]).0 != (#[trigger] r[b]).0 by {
                assert(r[a].0 == t[a].0);
                assert(r[b].0 == t[b].0);
                assert(t[a].0 != t[b].0);
            }
        }
    } else {
        lemma_key_absent(t, repo, 0);
        if filter.len() > 0 {
            assert forall|a: int, b: int| 0 <= a < b < r.len() implies (#[trigger] r[a]).0 != (#[trigger] r[b]).0 by {
                if b == t.len() {
                    assert(r[a] == t[a]);
                } else {
                    assert(r[a] == t[a] && r[b] == t[b]);
                }
            }
        }
    }
}

/// The filter table after setting `repo`'s filter: an empty filter removes
/// the entry; otherwise it replaces the entry's value, or is added last.
pub open spec fn filters_after(t: Seq<(Seq<char>, Seq<char>)>, repo: Seq<char>, filter: Seq<char>) -> Seq<(Seq<char>, Seq<char>)> {
    let i = key_index_from(t, repo, 0);
    if filter.len() == 0 {
        if i < t.len() {
            t.remove(i)
        } else {
            t
        }
    } else if i < t.len() {
        t.update(i, (repo, filter))
    } else {
        t.push((repo, filter))
    }
}

fn index_of_id(v: &Vec<String>, id: &String) -> (r: usize)
    ensures
        r <= v@.len(),
        r < v@.len() ==> ids(v@)[r as int] == id@ && forall|j: int| 0 <= j < r ==> ids(v@)[j] != id@,
        r == v@.len() ==> !ids(v@).contains(id@),
{
    let mut i: usize = 0;
    while i < v.len()
        invariant
            i <= v@.len(),
            forall|j: int| 0 <= j < i ==> ids(v@)[j] != id@,
        decreases v@.len() - i,
    {
        if v[i] == *id {
            return i;
        }
        i = i + 1;
    }
    i
}

fn push_id_once(v: &mut Vec<String>, id: &String)
    ensures
        ids(final(v)@) == with_id(ids(old(v)@), id@),
{
    if index_of_id(v, id) == v.len() {
        let s = id.clone();
        proof {
            assert(ids(v@.push(s)) =~= ids(v@).push(id@));
        }
        v.push(s);
    } else {
        proof {
            assert(ids(v@).contains(id@));
        }
    }
}

fn repo_exists(repos: &Vec<RepoEntry>, id: &String) -> (r: bool)
    ensures
        r == has_repo(repo_views(repos@), id@),
{
    let mut i: usize = 0;
    while i < repos.len()
        invariant
            i <= repos@.len(),
            forall|j: int| 0 <= j < i ==> repo_views(repos@)[j].id != id@,
        decreases repos@.len() - i,
    {
        if repos[i].id == *id {
            proof {
                assert(repo_views(repos@)[i as int].id == id@);
            }
            return true;
        }
        i = i + 1;
    }
    false
}

impl AppSettings {
    /// Registers a repository under a fresh `id` and opens it.
    pub fn add_repo(&mut self, id: String, name: String, path: String)
        ensures
            repo_views(final(self).repos@) == repo_views(old(self).repos@).push(
                RepoView { id: id@, name: name@, path: path@ },
            ),
            ids(final(self).open_repo_ids@) == with_id(ids(old(self).open_repo_ids@), id@),
            final(self).active_repo_id == old(self).active_repo_id,
            *final(self) == (AppSettings { repos: final(self).repos, open_repo_ids: final(self).open_repo_ids, ..*old(self) }),
    {
        let entry = RepoEntry { id: id.clone(), name, path };
        proof {
            assert(repo_views(self.repos@.push(entry)) =~= repo_views(self.repos@).push(entry@));
        }
        self.repos.push(entry);
        push_id_once(&mut self.open_repo_ids, &id);
    }

    /// Forgets a repository: it leaves the list and the open set, and stops
    /// being active.
    pub fn remove_repo(&mut self, id: &String)
        ensures
            repo_views(final(self).repos@) == without_repo(repo_views(old(self).repos@), id@),
            ids(final(self).open_repo_ids@) == without(ids(old(self).open_repo_ids@), id@),
            opt_view(final(self).active_repo_id) == (if opt_view(old(self).active_repo_id) == Some(id@) {
                None
            } else {
                opt_view(old(self).active_repo_id)
            }),
            *final(self) == (AppSettings {
                repos: final(self).repos,
                open_repo_ids: final(self).open_repo_ids,
                active_repo_id: final(self).active_repo_id,
                ..*old(self)
            }),
    {
        let mut repos: Vec<RepoEntry> = Vec::new();
        let mut i: usize = 0;
        proof {
            assert(repo_views(self.repos@).take(0) =~= Seq::<RepoView>::empty());
            assert(repo_views(repos@) =~= Seq::empty());
        }
        while i < self.repos.len()
            invariant
                i <= self.repos@.len(),
                self.repos == old(self).repos,
                repo_views(repos@) == without_repo(repo_views(self.repos@).take(i as int), id@),
            decreases self.repos@.len() - i,
        {
            proof {
                let v = repo_views(self.repos@);
                assert(v.take(i + 1).drop_last() =~= v.take(i as int));
                assert(v.take(i + 1).last() == self.repos@[i as int]@);
            }
            if self.repos[i].id != *id {
                let r = RepoEntry {
                    id: self.repos[i].id.clone(),
                    name: self.repos[i].name.clone(),
                    path: self.repos[i].path.clone(),
                };
                proof {
                    assert(repo_views(repos@.push(r)) =~= repo_views(repos@).push(r@));
                }
                repos.push(r);
            }
            i = i + 1;
        }
        proof {
            assert(repo_views(self.repos@).take(self.repos@.len() as int) =~= repo_views(self.repos@));
        }
        self.repos = repos;
        let mut open: Vec<String> = Vec::new();
        let mut k: usize = 0;
        proof {
            assert(ids(open@) =~= Seq::empty());
            assert(ids(self.open_repo_ids@).take(0) =~= Seq::<Seq<char>>::empty());
        }
        while k < self.open_repo_ids.len()
            invariant
                k <= self.open_repo_ids@.len(),
                self.open_repo_ids == old(self).open_repo_ids,
                ids(open@) == without(ids(self.open_repo_ids@).take(k as int), id@),
            decreases self.open_repo_ids@.len() - k,
        {
            proof {
                let v = ids(self.open_repo_ids@);
                assert(v.take(k + 1).drop_last() =~= v.take(k as int));
                assert(v.take(k + 1).last() == self.open_repo_ids@[k as int]@);
            }
            if self.open_repo_ids[k] != *id {
                let s = self.open_repo_ids[k].clone();
                proof {
                    assert(ids(open@.push(s)) =~= ids(open@).push(s@));
                }
                open.push(s);
            }
            k = k + 1;
        }
        proof {
            assert(ids(self.open_repo_ids@).take(self.open_repo_ids@.len() as int) =~= ids(self.open_repo_ids@));
        }
        self.open_repo_ids = open;
        let clear = match &self.active_repo_id {
            Some(a) => *a == *id,
            None => false,
        };
        if clear {
            self.active_repo_id = None;
        }
    }

    /// Makes a known repository active (and open).
    pub fn set_active_repo(&mut self, id: &String) -> (r: Result<(), String>)
        ensures
            !has_repo(repo_views(old(self).repos@), id@) ==> (r matches Err(e) && e@ == "Repository ID not found"@
                && *final(self) == *old(self)),
            has_repo(repo_views(old(self).repos@), id@) ==> r is Ok && opt_view(final(self).active_repo_id)
                == Some(id@) && ids(final(self).open_repo_ids@) == with_id(ids(old(self).open_repo_ids@), id@)
                && final(self).repos == old(self).repos,
            *final(self) == (AppSettings {
                open_repo_ids: final(self).open_repo_ids,
                active_repo_id: final(self).active_repo_id,
                ..*old(self)
            }),
    {
        if !repo_exists(&self.repos, id) {
            return Err("Repository ID not found".to_string());
        }
        self.active_repo_id = Some(id.clone());
        push_id_once(&mut self.open_repo_ids, id);
        Ok(())
    }

    /// Opens a known repository.
    pub fn open_repo(&mut self, id: &String) -> (r: Result<(), String>)
        ensures
            !has_repo(repo_views(old(self).repos@), id@) ==> (r matches Err(e) && e@ == "Repository ID not found"@
                && *final(self) == *old(self)),
            has_repo(repo_views(old(self).repos@), id@) ==> r is Ok && ids(final(self).open_repo_ids@)
                == with_id(ids(old(self).open_repo_ids@), id@) && final(self).repos == old(self).repos
                && final(self).active_repo_id == old(self).active_repo_id,
            *final(self) == (AppSettings { open_repo_ids: final(self).open_repo_ids, ..*old(self) }),
    {
        if !repo_exists(&self.repos, id) {
            return Err("Repository ID not found".to_string());
        }
        push_id_once(&mut self.open_repo_ids, id);
        Ok(())
    }

    /// Closes an open repository; when it was active, its successor in the
    /// open list (else its predecessor, else none) becomes active. Returns
    /// whether it was open.
    pub fn close_repo(&mut self, id: &String) -> (r: bool)
        ensures
            !ids(old(self).open_repo_ids@).contains(id@) ==> !r && *final(self) == *old(self),
            ids(old(self).open_repo_ids@).contains(id@) ==> r && exists|pos: int|
                0 <= pos < old(self).open_repo_ids@.len() && ids(old(self).open_repo_ids@)[pos] == id@
                    && (forall|j: int| 0 <= j < pos ==> ids(old(self).open_repo_ids@)[j] != id@)
                    && ids(final(self).open_repo_ids@) == ids(old(self).open_repo_ids@).remove(pos)
                    && opt_view(final(self).active_repo_id) == (if opt_view(old(self).active_repo_id)
                    == Some(id@) {
                    next_active(ids(old(self).open_repo_ids@), pos)
                } else {
                    opt_view(old(self).active_repo_id)
                }),
            *final(self) == (AppSettings {
                open_repo_ids: final(self).open_repo_ids,
                active_repo_id: final(self).active_repo_id,
                ..*old(self)
            }),
    {
        let pos = index_of_id(&self.open_repo_ids, id);
        if pos == self.open_repo_ids.len() {
            return false;
        }
        let ghost before = ids(self.open_repo_ids@);
        self.open_repo_ids.remove(pos);
        proof {
            assert(ids(self.open_repo_ids@) =~= before.remove(pos as int));
        }
        let was_active = match &self.active_repo_id {
            Some(a) => *a == *id,
            None => false,
        };
        if was_active {
            let n = self.open_repo_ids.len();
            self.active_repo_id = if pos < n {
                Some(self.open_repo_ids[pos].clone())
            } else if pos > 0 {
                Some(self.open_repo_ids[pos - 1].clone())
            } else {
                None
            };
        }
        proof {
            assert(before[pos as int] == id@);
        }
        true
    }

    /// The active repository's entry, where there is one.
    pub fn active_repo(&self) -> (r: Option<RepoEntry>)
        ensures
            match self.active_repo_id {
                None => r is None,
                Some(id) => {
                    let i = repo_index_from(*self, id@, 0);
                    if i < self.repos@.len() {
                        r matches Some(e) && e@ == self.repos@[i]@
                    } else {
                        r is None
                    }
                },
            },
    {
        match &self.active_repo_id {
            None => None,
            Some(id) => {
                let mut i: usize = 0;
                while i < self.repos.len()
                    invariant
                        i <= self.repos@.len(),
                        self.active_repo_id == Some(*id),
                        repo_index_from(*self, id@, i as int) == repo_index_from(*self, id@, 0),
                    decreases self.repos@.len() - i,
                {
                    if self.repos[i].id == *id {
                        let e = RepoEntry {
                            id: self.repos[i].id.clone(),
                            name: self.repos[i].name.clone(),
                            path: self.repos[i].path.clone(),
                        };
                        return Some(e);
                    }
                    i = i + 1;
                }
                None
            },
        }
    }

    pub fn set_excluded_files(&mut self, exclusions: Vec<String>)
        ensures
            *final(self) == (AppSettings { excluded_files: exclusions, ..*old(self) }),
    {
        self.excluded_files = exclusions;
    }

    /// Sets (or, with an empty filter, clears) a repository's filter.
    pub fn set_repo_filter(&mut self, repo_id: String, filter: String)
        ensures
            old(self).well_formed() ==> final(self).well_formed(),
            table_view(final(self).repo_filters@) == filters_after(
                table_view(old(self).repo_filters@),
                repo_id@,
                filter@,
            ),
            *final(self) == (AppSettings { repo_filters: final(self).repo_filters, ..*old(self) }),
    {
        let ghost t = table_view(self.repo_filters@);
        proof {
            if keys_unique(t) {
                lemma_filters_keep_keys_unique(t, repo_id@, filter@);
            }
        }
        let i = key_position(&self.repo_filters, &repo_id);
        if filter.as_str().is_empty() {
            if i < self.repo_filters.len() {
                self.repo_filters.remove(i);
                proof {
                    assert(table_view(self.repo_filters@) =~= t.remove(i as int));
                }
            }
        } else if i < self.repo_filters.len() {
            let entry = (repo_id, filter);
            proof {
                assert(table_view(self.repo_filters@.update(i as int, entry)) =~= t.update(
                    i as int,
                    (entry.0@, entry.1@),
                ));
            }
            self.repo_filters.set(i, entry);
        } else {
            let entry = (repo_id, filter);
            proof {
                assert(table_view(self.repo_filters@.push(entry)) =~= t.push((entry.0@, entry.1@)));
            }
            self.repo_filters.push(entry);
        }
    }

    fn trimmed_or_none(value: &str) -> (r: Option<String>)
        ensures
            trim(value@).len() == 0 ==> r is None,
            trim(value@).len() > 0 ==> (r matches Some(v) && v@ == trim(value@)),
    {
        let cs = chars_of(value);
        let t = trim_chars(cs.as_slice());
        if t.len() == 0 {
            None
        } else {
            Some(string_of(t.as_slice()))
        }
    }

    /// Stores the API token, trimmed; a blank one clears it.
    pub fn set_gemini_api_token(&mut self, token: &str)
        ensures
            trim(token@).len() == 0 ==> final(self).gemini_api_token is None,
            trim(token@).len() > 0 ==> (final(self).gemini_api_token matches Some(v) && v@ == trim(token@)),
            final(self).repos == old(self).repos,
            *final(self) == (AppSettings { gemini_api_token: final(self).gemini_api_token, ..*old(self) }),
    {
        self.gemini_api_token = Self::trimmed_or_none(token);
    }

    /// Stores the model name, trimmed; a blank one clears it.
    pub fn set_gemini_model(&mut self, model: &str)
        ensures
            trim(model@).len() == 0 ==> final(self).gemini_model is None,
            trim(model@).len() > 0 ==> (final(self).gemini_model matches Some(v) && v@ == trim(model@)),
            final(self).repos == old(self).repos,
            *final(self) == (AppSettings { gemini_model: final(self).gemini_model, ..*old(self) }),
    {
        self.gemini_model = Self::trimmed_or_none(model);
    }
}

fn key_position(t: &Vec<(String, String)>, k: &String) -> (r: usize)
    ensures
        r == key_index_from(table_view(t@), k@, 0),
        r <= t@.len(),
{
    let ghost tv = table_view(t@);
    let mut i: usize = 0;
    while i < t.len()
        invariant
            i <= t@.len(),
            tv == table_view(t@),
            key_index_from(tv, k@, i as int) == key_index_from(tv, k@, 0),
        decreases t@.len() - i,
    {
        if t[i].0 == *k {
            proof {
                assert(tv[i as int].0 == k@);
            }
            return i;
        }
        i = i + 1;
    }
    i
}

} // verus!

verus! {

impl Default for AppSettings {
    /// No repositories, nothing open or active, empty tables.
    fn default() -> (r: Self)
        ensures
            r.well_formed(),
            r.repos@.len() == 0 && r.open_repo_ids@.len() == 0 && r.excluded_files@.len() == 0,
            r.repo_filters@.len() == 0 && r.file_encodings@.len() == 0,
            r.active_repo_id is None && r.gemini_api_token is None && r.gemini_model is None,
    {
        AppSettings {
            repos: Vec::new(),
            active_repo_id: None,
            open_repo_ids: Vec::new(),
            excluded_files: Vec::new(),
            repo_filters: Vec::new(),
            file_encodings: Vec::new(),
            gemini_api_token: None,
            gemini_model: None,
        }
    }
}

} // verus!
