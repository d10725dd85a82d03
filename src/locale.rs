//! The store of per-locale bundles: loading it from the locale directory,
//! and choosing the bundle that serves a request.

use std::sync::Arc;

use crate::bundle::{canonical_form, canonical_tag, default_tag, loadable, Bundle};
use vstd::prelude::*;

verus! {

/// One entry of the locale directory, as read from disk.
#[derive(Clone, Debug)]
pub enum LocaleSource {
    /// An entry that could not be read.
    Unreadable,
    /// A subdirectory: its name, where it is valid text, and the content of
    /// its resource file, where that could be read.
    Dir { name: Option<String>, content: Option<String> },
}

/// A locale that was skipped while loading, and why.
#[derive(Debug)]
pub enum LoadWarning {
    UnreadableEntry,
    UnexpectedName,
    UnreadableFile { tag: String },
    UnparsableResource { tag: String },
}

/// The model of a `LoadWarning`.
pub enum WarningView {
    UnreadableEntry,
    UnexpectedName,
    UnreadableFile(Seq<char>),
    UnparsableResource(Seq<char>),
}

impl View for LoadWarning {
    type V = WarningView;

    open spec fn view(&self) -> WarningView {
        match self {
            LoadWarning::UnreadableEntry => WarningView::UnreadableEntry,
            LoadWarning::UnexpectedName => WarningView::UnexpectedName,
            LoadWarning::UnreadableFile { tag } => WarningView::UnreadableFile(tag@),
            LoadWarning::UnparsableResource { tag } => WarningView::UnparsableResource(tag@),
        }
    }
}

/// Why loading could not produce a store.
#[derive(Debug)]
pub enum LoadError {
    /// No bundle for the default locale could be loaded; `warnings` says
    /// why each skipped entry was skipped.
    MissingDefaultLocale { warnings: Vec<LoadWarning> },
}

/// The tag and resource text that an entry contributes, if it loads.
pub open spec fn entry_loaded(e: LocaleSource) -> Option<(Seq<char>, Seq<char>)> {
    match e {
        LocaleSource::Dir { name: Some(n), content: Some(c) } => match canonical_tag(n@) {
            Some(t) => if loadable(c@) {
                Some((t, c@))
            } else {
                None
            },
            None => None,
        },
        _ => None,
    }
}

/// The warning that an entry gives, if it does not load.
pub open spec fn entry_warning(e: LocaleSource) -> Option<WarningView> {
    match e {
        LocaleSource::Unreadable => Some(WarningView::UnreadableEntry),
        LocaleSource::Dir { name: None, content: _ } => Some(WarningView::UnexpectedName),
        LocaleSource::Dir { name: Some(n), content } => match canonical_tag(n@) {
            None => Some(WarningView::UnexpectedName),
            Some(t) => match content {
                None => Some(WarningView::UnreadableFile(t)),
                Some(c) => if loadable(c@) {
                    None
                } else {
                    Some(WarningView::UnparsableResource(t))
                },
            },
        },
    }
}

/// Tag to resource text of the locales that `entries` load; a later entry
/// with the same tag replaces an earlier one.
pub open spec fn loaded(entries: Seq<LocaleSource>) -> Map<Seq<char>, Seq<char>>
    decreases entries.len(),
{
    if entries.len() == 0 {
        Map::empty()
    } else {
        let rest = loaded(entries.drop_last());
        match entry_loaded(entries.last()) {
            Some((t, c)) => rest.insert(t, c),
            None => rest,
        }
    }
}

/// The warnings that `entries` give, in order.
pub open spec fn warnings(entries: Seq<LocaleSource>) -> Seq<WarningView>
    decreases entries.len(),
{
    if entries.len() == 0 {
        Seq::empty()
    } else {
        let rest = warnings(entries.drop_last());
        match entry_warning(entries.last()) {
            Some(w) => rest.push(w),
            None => rest,
        }
    }
}

/// Whether entry `e` loads the locale `t`.
pub open spec fn loads_tag(e: LocaleSource, t: Seq<char>) -> bool {
    match entry_loaded(e) {
        Some((u, _)) => u == t,
        None => false,
    }
}

/// A locale is in the loaded map exactly when some entry loads it.
pub proof fn lemma_loaded_keys(entries: Seq<LocaleSource>, t: Seq<char>)
    ensures
        loaded(entries).contains_key(t) <==> exists|j: int|
            0 <= j < entries.len() && #[trigger] loads_tag(entries[j], t),
    decreases entries.len(),
{
    if entries.len() > 0 {
        let rest = entries.drop_last();
        lemma_loaded_keys(rest, t);
        let n = entries.len() - 1;
        assert(entries.last() == entries[n]);
        if loads_tag(entries[n], t) {
            let (u, c) = entry_loaded(entries[n]).unwrap();
            assert(loaded(entries) == loaded(rest).insert(u, c));
            assert(loaded(entries).contains_key(t));
        } else {
            match entry_loaded(entries[n]) {
                Some((u, c)) => {
                    assert(loaded(entries) == loaded(rest).insert(u, c));
                },
                None => {},
            }
            assert(loaded(entries).contains_key(t) == loaded(rest).contains_key(t));
            if exists|j: int| 0 <= j < entries.len() && #[trigger] loads_tag(entries[j], t) {
                let j = choose|j: int| 0 <= j < entries.len() && #[trigger] loads_tag(entries[j], t);
                assert(loads_tag(rest[j], t));
            }
            if exists|j: int| 0 <= j < rest.len() && #[trigger] loads_tag(rest[j], t) {
                let j = choose|j: int| 0 <= j < rest.len() && #[trigger] loads_tag(rest[j], t);
                assert(loads_tag(entries[j], t));
            }
        }
    }
}

/// A locale that exactly one entry loads holds that entry's resource text,
/// wherever the entry stands; with the key set above, the store does not
/// depend on the order of entries whose locales differ.
pub proof fn lemma_loaded_value(entries: Seq<LocaleSource>, i: int, t: Seq<char>)
    requires
        0 <= i < entries.len(),
        loads_tag(entries[i], t),
        forall|j: int| 0 <= j < entries.len() && j != i ==> !#[trigger] loads_tag(entries[j], t),
    ensures
        loaded(entries).contains_key(t),
        loaded(entries)[t] == entry_loaded(entries[i]).unwrap().1,
    decreases entries.len(),
{
    let rest = entries.drop_last();
    let n = entries.len() - 1;
    assert(entries.last() == entries[n]);
    if i == n {
        let (u, c) = entry_loaded(entries[n]).unwrap();
        assert(loaded(entries) == loaded(rest).insert(u, c));
    } else {
        assert forall|j: int| 0 <= j < rest.len() && j != i implies !#[trigger] loads_tag(
            rest[j],
            t,
        ) by {
            assert(rest[j] == entries[j]);
        }
        assert(rest[i] == entries[i]);
        lemma_loaded_value(rest, i, t);
        assert(!loads_tag(entries[n], t));
        match entry_loaded(entries[n]) {
            Some((u, c)) => {
                assert(loaded(entries) == loaded(rest).insert(u, c));
            },
            None => {},
        }
    }
}

/// A readable locale directory whose name is a tag and whose resource loads
/// is loaded under the canonical form of its name.
pub proof fn lemma_valid_dir_loaded(
    entries: Seq<LocaleSource>,
    i: int,
    name: String,
    content: String,
    t: Seq<char>,
)
    requires
        0 <= i < entries.len(),
        entries[i] == (LocaleSource::Dir { name: Some(name), content: Some(content) }),
        canonical_tag(name@) == Some(t),
        loadable(content@),
    ensures
        loaded(entries).contains_key(t),
{
    assert(loads_tag(entries[i], t));
    lemma_loaded_keys(entries, t);
}

/// An entry that does not load changes nothing: the loaded map is the one
/// of the other entries alone.
pub proof fn lemma_malformed_entry_ignored(entries: Seq<LocaleSource>, i: int)
    requires
        0 <= i < entries.len(),
        entry_loaded(entries[i]) is None,
    ensures
        loaded(entries) == loaded(entries.remove(i)),
    decreases entries.len(),
{
    if i == entries.len() - 1 {
        assert(entries.remove(i) =~= entries.drop_last());
    } else {
        lemma_malformed_entry_ignored(entries.drop_last(), i);
        assert(entries.remove(i).drop_last() =~= entries.drop_last().remove(i));
        assert(entries.remove(i).last() == entries.last());
    }
}

/// The model of an optional header value.
pub open spec fn header_view(header: Option<&str>) -> Option<Seq<char>> {
    match header {
        Some(h) => Some(h@),
        None => None,
    }
}

/// The locale a request asks for: the canonical form of its header, or the
/// default where there is no header or it is not a tag.
pub open spec fn preferred(header: Option<Seq<char>>) -> Seq<char> {
    match header {
        Some(h) => match canonical_tag(h) {
            Some(t) => t,
            None => default_tag(),
        },
        None => default_tag(),
    }
}

/// The locale that serves `tag` in a store of the locales `store`.
pub open spec fn served(store: Map<Seq<char>, Seq<char>>, tag: Seq<char>) -> Seq<char> {
    if store.contains_key(tag) {
        tag
    } else {
        default_tag()
    }
}

/// The tag of the default locale.
pub fn default_locale() -> (r: String)
    ensures
        r@ == default_tag(),
{
    let r = String::from_str("en-US");
    proof {
        reveal_strlit("en-US");
    }
    r
}

/// The tag a request asks for, given its language header.
pub fn preferred_tag(header: Option<&str>) -> (r: String)
    ensures
        r@ == preferred(header_view(header)),
{
    match header {
        Some(h) => match canonical_form(h) {
            Some(t) => t,
            None => default_locale(),
        },
        None => default_locale(),
    }
}

/// The bundles of all loaded locales, keyed by tag; it always holds the
/// default locale.
#[derive(Clone)]
pub struct LocaleFactory {
    bundles: Vec<Arc<Bundle>>,
    model: Ghost<Map<Seq<char>, Seq<char>>>,
}

impl View for LocaleFactory {
    type V = Map<Seq<char>, Seq<char>>;

    closed spec fn view(&self) -> Map<Seq<char>, Seq<char>> {
        self.model@
    }
}

impl LocaleFactory {
    /// The bundles stand for the model, one per tag.
    closed spec fn holds(&self) -> bool {
        &&& forall|i: int|
            0 <= i < self.bundles@.len() ==> #[trigger] self.model@.contains_key(
                self.bundles@[i].tag(),
            ) && self.model@[self.bundles@[i].tag()] == self.bundles@[i].text()
        &&& forall|k: Seq<char>| #[trigger]
            self.model@.contains_key(k) ==> exists|i: int|
                0 <= i < self.bundles@.len() && #[trigger] self.bundles@[i].tag() == k
        &&& forall|i: int, j: int|
            0 <= i < self.bundles@.len() && 0 <= j < self.bundles@.len() && i != j
                ==> self.bundles@[i].tag() != self.bundles@[j].tag()
    }

    /// Well-formed: as above, and the default locale is present.
    pub closed spec fn wf(&self) -> bool {
        self.holds() && self.model@.contains_key(default_tag())
    }

    /// Where the bundle for `tag` stands.
    fn find(&self, tag: &String) -> (r: Option<usize>)
        requires
            self.holds(),
        ensures
            match r {
                Some(i) => i < self.bundles@.len() && self.bundles@[i as int].tag() == tag@,
                None => !self@.contains_key(tag@),
            },
    {
        let mut i: usize = 0;
        while i < self.bundles.len()
            invariant
                self.holds(),
                i <= self.bundles@.len(),
                forall|j: int| 0 <= j < i ==> self.bundles@[j].tag() != tag@,
            decreases self.bundles@.len() - i,
        {
            if self.bundles[i].tag_string().eq(tag) {
                return Some(i);
            }
            i += 1;
        }
        None
    }

    /// Adds `b`, replacing the bundle of the same locale if there is one.
    fn insert(&mut self, b: Arc<Bundle>)
        requires
            old(self).holds(),
        ensures
            final(self).holds(),
            final(self)@ == old(self)@.insert(b.tag(), b.text()),
    {
        let ghost t = b.tag();
        let ghost c = b.text();
        let ghost at: int;
        match self.find(b.tag_string()) {
            Some(i) => {
                self.bundles.set(i, b);
                proof {
                    at = i as int;
                }
            },
            None => {
                self.bundles.push(b);
                proof {
                    at = self.bundles@.len() - 1;
                }
            },
        }
        self.model = Ghost(self.model@.insert(t, c));
        assert forall|k: Seq<char>| #[trigger] self.model@.contains_key(k) implies exists|i: int|
            0 <= i < self.bundles@.len() && #[trigger] self.bundles@[i].tag() == k by {
            if k != t {
                let i = choose|i: int|
                    0 <= i < old(self).bundles@.len() && #[trigger] old(self).bundles@[i].tag()
                        == k;
                assert(self.bundles@[i].tag() == k);
            } else {
                assert(self.bundles@[at].tag() == t);
            }
        }
    }
}

impl LocaleFactory {
    /// Builds the store from the entries of the locale directory. Entries that
    /// do not load are skipped with a warning each; the result is an error
    /// exactly when the default locale did not load.
    pub fn new(entries: Vec<LocaleSource>) -> (r: Result<(LocaleFactory, Vec<LoadWarning>), LoadError>)
        ensures
            r is Ok <==> loaded(entries@).contains_key(default_tag()),
            match r {
                Ok((f, w)) => f.wf() && f@ == loaded(entries@) && w@.map_values(
                    |x: LoadWarning| x@,
                ) == warnings(entries@),
                Err(LoadError::MissingDefaultLocale { warnings: w }) => w@.map_values(
                    |x: LoadWarning| x@,
                ) == warnings(entries@),
            },
    {
        let mut store = LocaleFactory { bundles: Vec::new(), model: Ghost(Map::empty()) };
        let mut warns: Vec<LoadWarning> = Vec::new();
        let mut i: usize = 0;
        while i < entries.len()
            invariant
                store.holds(),
                i <= entries@.len(),
                store@ == loaded(entries@.take(i as int)),
                warns@.map_values(|x: LoadWarning| x@) == warnings(entries@.take(i as int)),
            decreases entries@.len() - i,
        {
            proof {
                assert(entries@.take(i + 1).drop_last() =~= entries@.take(i as int));
                assert(entries@.take(i + 1).last() == entries@[i as int]);
            }
            match &entries[i] {
                LocaleSource::Unreadable => warns.push(LoadWarning::UnreadableEntry),
                LocaleSource::Dir { name, content } => match name {
                    None => warns.push(LoadWarning::UnexpectedName),
                    Some(n) => match canonical_form(n.as_str()) {
                        None => warns.push(LoadWarning::UnexpectedName),
                        Some(t) => match content {
                            None => warns.push(LoadWarning::UnreadableFile { tag: t }),
                            Some(c) => match Bundle::compile(n.as_str(), c.clone()) {
                                Some(b) => store.insert(Arc::new(b)),
                                None => warns.push(LoadWarning::UnparsableResource { tag: t }),
                            },
                        },
                    },
                },
            }
            proof {
                assert(warns@.map_values(|x: LoadWarning| x@) =~= warnings(
                    entries@.take(i + 1),
                ));
            }
            i += 1;
        }
        proof {
            assert(entries@.take(entries@.len() as int) =~= entries@);
        }
        let d = default_locale();
        match store.find(&d) {
            Some(_) => Ok((store, warns)),
            None => Err(LoadError::MissingDefaultLocale { warnings: warns }),
        }
    }

    /// Whether the locale `tag` is loaded.
    pub fn contains(&self, tag: &String) -> (r: bool)
        requires
            self.wf(),
        ensures
            r == self@.contains_key(tag@),
    {
        self.find(tag).is_some()
    }

    /// The bundle of locale `tag`, or of the default locale where `tag` is
    /// not loaded.
    pub fn select(&self, tag: &String) -> (r: &Arc<Bundle>)
        requires
            self.wf(),
        ensures
            r.tag() == served(self@, tag@),
            r.text() == self@[r.tag()],
    {
        match self.find(tag) {
            Some(i) => &self.bundles[i],
            None => {
                let d = default_locale();
                match self.find(&d) {
                    Some(j) => &self.bundles[j],
                    None => {
                        proof {
                            assert(false);
                        }
                        &self.bundles[0]
                    },
                }
            },
        }
    }

    /// The bundle that serves a request with the language header `header`:
    /// the locale it names where that is loaded, else the default locale.
    pub fn resolve(&self, header: Option<&str>) -> (r: &Arc<Bundle>)
        requires
            self.wf(),
        ensures
            r.tag() == served(self@, preferred(header_view(header))),
            r.text() == self@[r.tag()],
            !self@.contains_key(preferred(header_view(header))) ==> r.tag() == default_tag(),
            match header {
                Some(h) => self@.contains_key(h@) && canonical_tag(h@) == Some(h@) ==> r.tag()
                    == h@,
                None => true,
            },
    {
        let tag = preferred_tag(header);
        self.select(&tag)
    }

    /// Wraps the service `service` with locale selection over this store.
    pub fn new_transform<S>(self, service: S) -> (r: LocaleMiddleware<S>)
        ensures
            r.service == service,
            r.factory == self,
    {
        LocaleMiddleware { service, factory: self }
    }
}

/// A service wrapped so that each request gets the bundle of its locale.
pub struct LocaleMiddleware<S> {
    pub service: S,
    pub factory: LocaleFactory,
}

impl<S> LocaleMiddleware<S> {
    /// The bundle that serves a request with the language header `header`.
    pub fn bundle_for(&self, header: Option<&str>) -> (r: &Arc<Bundle>)
        requires
            self.factory.wf(),
        ensures
            r.tag() == served(self.factory@, preferred(header_view(header))),
            r.text() == self.factory@[r.tag()],
    {
        self.factory.resolve(header)
    }
}

} // verus!
