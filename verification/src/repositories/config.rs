//! The source registry: the remote providers that the engine knows.

use vstd::prelude::*;
use crate::repositories::document::{
    parse_document, parsed_document, table_get, table_model, value_as_array, value_as_integer,
    value_as_str, value_as_table, value_model, Toml,
};

verus! {

/// A remote data provider: its key in the registry, a display name and the
/// base URL of its HTTP interface.
#[derive(Debug, Clone)]
pub struct Source {
    pub id: u16,
    pub name: String,
    pub url: String,
}

/// The registry of sources, in the order in which they were configured.
#[derive(Debug)]
pub struct Config {
    pub sources: Vec<Source>,
}

/// The index of the first of `sources` that has the key `id`, if any has.
pub open spec fn first_with_id(sources: Seq<Source>, id: u16) -> Option<int> {
    if exists|i: int| 0 <= i < sources.len() && sources[i].id == id {
        Some(choose|i: int| is_first_with_id(sources, id, i))
    } else {
        None
    }
}

/// `i` is the index of a source with the key `id`, and none before it has that key.
pub open spec fn is_first_with_id(sources: Seq<Source>, id: u16, i: int) -> bool {
    &&& 0 <= i < sources.len()
    &&& sources[i].id == id
    &&& forall|j: int| 0 <= j < i ==> sources[j].id != id
}

/// The first source with a key is the one that `first_with_id` names.
pub proof fn lemma_first_with_id(sources: Seq<Source>, id: u16, i: int)
    requires
        is_first_with_id(sources, id, i),
    ensures
        first_with_id(sources, id) == Some(i),
{
    let k = choose|k: int| is_first_with_id(sources, id, k);
    if k < i {
        assert(sources[k].id != id);
    } else if i < k {
        assert(sources[i].id != id);
    }
}

/// What `first_with_id` names is a source with the key, the first of them;
/// it names none only where no source has the key.
pub proof fn lemma_first_with_id_is_first(sources: Seq<Source>, id: u16)
    ensures
        match first_with_id(sources, id) {
            Some(i) => is_first_with_id(sources, id, i),
            None => forall|j: int| 0 <= j < sources.len() ==> sources[j].id != id,
        },
{
    if exists|i: int| 0 <= i < sources.len() && sources[i].id == id {
        let w = choose|i: int| 0 <= i < sources.len() && sources[i].id == id;
        lemma_has_first(sources, id, w);
    }
}

/// Below any source with the key stands a first one.
proof fn lemma_has_first(sources: Seq<Source>, id: u16, w: int)
    requires
        0 <= w < sources.len(),
        sources[w].id == id,
    ensures
        exists|k: int| is_first_with_id(sources, id, k),
    decreases w,
{
    if exists|j: int| 0 <= j < w && sources[j].id == id {
        let j = choose|j: int| 0 <= j < w && sources[j].id == id;
        lemma_has_first(sources, id, j);
    } else {
        assert(is_first_with_id(sources, id, w));
    }
}

/// No two of `sources` share a key.
pub open spec fn unique_ids(sources: Seq<Source>) -> bool {
    forall|i: int, j: int|
        0 <= i < j < sources.len() ==> (#[trigger] sources[i]).id != (#[trigger] sources[j]).id
}

/// A source as text and numbers: its key, its name and its base URL.
pub open spec fn source_view(source: Source) -> (u16, Seq<char>, Seq<char>) {
    (source.id, source.name@, source.url@)
}

/// The sources as text and numbers, in order.
pub open spec fn source_views(sources: Seq<Source>) -> Seq<(u16, Seq<char>, Seq<char>)> {
    Seq::new(sources.len(), |i: int| source_view(sources[i]))
}

/// The source that three values describe: the key, an integer of 16 bits
/// without a sign, then the name and the base URL, both text. `None` where
/// one of them is missing or of another kind.
pub open spec fn source_of_fields(id: Option<Toml>, name: Option<Toml>, url: Option<Toml>) -> Option<
    (u16, Seq<char>, Seq<char>),
> {
    match (id, name, url) {
        (Some(Toml::Integer(key)), Some(Toml::Text(n)), Some(Toml::Text(u))) => if 0 <= key
            <= 0xFFFF {
            Some((key as u16, n, u))
        } else {
            None
        },
        _ => None,
    }
}

/// What a table holds under `key`, if anything.
pub open spec fn entry(table: Map<Seq<char>, Toml>, key: Seq<char>) -> Option<Toml> {
    if table.contains_key(key) {
        Some(table[key])
    } else {
        None
    }
}

/// The source that a value of the document describes: a table with the
/// keys `id`, `name` and `url`, whatever else it holds, or an array that
/// begins with the three in this order.
pub open spec fn source_of(value: Toml) -> Option<(u16, Seq<char>, Seq<char>)> {
    match value {
        Toml::Table(table) => source_of_fields(
            entry(table, "id"@),
            entry(table, "name"@),
            entry(table, "url"@),
        ),
        Toml::Array(items) => if items.len() >= 3 {
            source_of_fields(Some(items[0]), Some(items[1]), Some(items[2]))
        } else {
            None
        },
        _ => None,
    }
}

/// The sources that a document configures: under the key `sources` an
/// array of which every item describes a source. `None` where the text was
/// no document, the key is missing or holds no array, or an item describes
/// no source.
pub open spec fn sources_of(document: Option<Map<Seq<char>, Toml>>) -> Option<
    Seq<(u16, Seq<char>, Seq<char>)>,
> {
    match document {
        Some(table) => match entry(table, "sources"@) {
            Some(Toml::Array(items)) => if forall|i: int|
                0 <= i < items.len() ==> (#[trigger] source_of(items[i])) is Some {
                Some(Seq::new(items.len(), |i: int| source_of(items[i])->0))
            } else {
                None
            },
            _ => None,
        },
        None => None,
    }
}

/// Reads a source from its three values.
fn read_fields(
    id: Option<&toml::Value>,
    name: Option<&toml::Value>,
    url: Option<&toml::Value>,
) -> (r: Option<Source>)
    ensures
        match r {
            Some(source) => Some(source_view(source)) == source_of_fields(
                model_of(id),
                model_of(name),
                model_of(url),
            ),
            None => source_of_fields(model_of(id), model_of(name), model_of(url)) is None,
        },
{
    let key = match id {
        Some(value) => match value_as_integer(value) {
            Some(key) => key,
            None => {
                return None;
            },
        },
        None => {
            return None;
        },
    };
    let name = match name {
        Some(value) => match value_as_str(value) {
            Some(text) => text,
            None => {
                return None;
            },
        },
        None => {
            return None;
        },
    };
    let url = match url {
        Some(value) => match value_as_str(value) {
            Some(text) => text,
            None => {
                return None;
            },
        },
        None => {
            return None;
        },
    };
    if 0 <= key && key <= 0xFFFF {
        Some(Source { id: key as u16, name: name.to_owned(), url: url.to_owned() })
    } else {
        None
    }
}

/// What a value that may be missing holds.
pub open spec fn model_of(value: Option<&toml::Value>) -> Option<Toml> {
    match value {
        Some(v) => Some(value_model(*v)),
        None => None,
    }
}

/// Reads a source from a value of the document.
fn read_source(value: &toml::Value) -> (r: Option<Source>)
    ensures
        match r {
            Some(source) => Some(source_view(source)) == source_of(value_model(*value)),
            None => source_of(value_model(*value)) is None,
        },
{
    match value_as_table(value) {
        Some(table) => read_fields(
            table_get(table, "id"),
            table_get(table, "name"),
            table_get(table, "url"),
        ),
        None => match value_as_array(value) {
            Some(items) => if items.len() >= 3 {
                read_fields(Some(&items[0]), Some(&items[1]), Some(&items[2]))
            } else {
                None
            },
            None => None,
        },
    }
}

/// Reads the sources that a document configures.
fn read_sources(document: &toml::map::Map<String, toml::Value>) -> (r: Option<Vec<Source>>)
    ensures
        match r {
            Some(sources) => Some(source_views(sources@)) == sources_of(
                Some(table_model(*document)),
            ),
            None => sources_of(Some(table_model(*document))) is None,
        },
{
    let items = match table_get(document, "sources") {
        Some(value) => match value_as_array(value) {
            Some(items) => items,
            None => {
                return None;
            },
        },
        None => {
            return None;
        },
    };
    let ghost models = Seq::new(items@.len(), |i: int| value_model(items@[i]));
    let mut sources: Vec<Source> = Vec::new();
    let n = items.len();
    let mut i: usize = 0;
    while i < n
        invariant
            i <= n,
            n == items@.len(),
            models == Seq::new(items@.len(), |i: int| value_model(items@[i])),
            entry(table_model(*document), "sources"@) == Some(Toml::Array(models)),
            sources@.len() == i,
            forall|k: int|
                0 <= k < i ==> Some(source_view(#[trigger] sources@[k])) == source_of(models[k]),
        decreases n - i,
    {
        match read_source(&items[i]) {
            Some(source) => {
                sources.push(source);
            },
            None => {
                assert(source_of(models[i as int]) is None);
                return None;
            },
        }
        i = i + 1;
    }
    proof {
        assert forall|k: int| 0 <= k < models.len() implies (#[trigger] source_of(
            models[k],
        )) is Some by {
            assert(Some(source_view(sources@[k])) == source_of(models[k]));
        }
        assert(source_views(sources@) =~= Seq::new(
            models.len(),
            |i: int| source_of(models[i])->0,
        ));
    }
    Some(sources)
}

impl Config {
    /// Tells whether `config` is a TOML document that configures sources.
    fn is_readable(config: &str) -> (ok: bool)
        ensures
            ok == sources_of(parsed_document(config@)) is Some,
    {
        match parse_document(config) {
            Ok(document) => read_sources(&document).is_some(),
            Err(_) => false,
        }
    }

    /// Reads the registry from `config`, a TOML document that configures
    /// sources: under the key `sources` an array with one item per source,
    /// as `sources_of` describes it. The sources keep the order of the
    /// document.
    pub fn from_str(config: &str) -> (c: Self)
        requires
            sources_of(parsed_document(config@)) is Some,
        ensures
            Some(source_views(c.sources@)) == sources_of(parsed_document(config@)),
    {
        match parse_document(config) {
            Ok(document) => match read_sources(&document) {
                Some(sources) => Config { sources },
                None => vstd::pervasive::unreached(),
            },
            Err(_) => vstd::pervasive::unreached(),
        }
    }

    /// Reads the registry from `config` where it is a TOML document that
    /// configures sources; `None` for any other text.
    pub fn parse(config: &str) -> (r: Option<Self>)
        ensures
            match r {
                Some(c) => Some(source_views(c.sources@)) == sources_of(
                    parsed_document(config@),
                ),
                None => sources_of(parsed_document(config@)) is None,
            },
    {
        if Self::is_readable(config) {
            Some(Self::from_str(config))
        } else {
            None
        }
    }

    /// The registry is consistent: every key belongs to a single source.
    pub open spec fn wf(&self) -> bool {
        unique_ids(self.sources@)
    }

    /// The source with the key `id`. Where several sources share the key the
    /// first configured one answers; a consistent registry has at most one.
    pub fn get_source(&self, id: u16) -> (r: Option<&Source>)
        ensures
            match first_with_id(self.sources@, id) {
                Some(i) => r == Some(&self.sources@[i]),
                None => r is None,
            },
    {
        let mut k: usize = 0;
        while k < self.sources.len()
            invariant
                k <= self.sources.len(),
                forall|j: int| 0 <= j < k ==> self.sources@[j].id != id,
            decreases self.sources.len() - k,
        {
            if self.sources[k].id == id {
                proof {
                    lemma_first_with_id(self.sources@, id, k as int);
                }
                return Some(&self.sources[k]);
            }
            k = k + 1;
        }
        None
    }

    /// Tells whether the registry is consistent.
    pub fn has_unique_ids(&self) -> (ok: bool)
        ensures
            ok == self.wf(),
    {
        let n = self.sources.len();
        let mut i: usize = 0;
        while i < n
            invariant
                n == self.sources.len(),
                i <= n,
                forall|a: int, b: int|
                    0 <= a < b < n && a < i ==> (#[trigger] self.sources@[a]).id != (
                    #[trigger] self.sources@[b]).id,
            decreases n - i,
        {
            let mut j: usize = i + 1;
            while j < n
                invariant
                    n == self.sources.len(),
                    i < j <= n,
                    forall|b: int| i < b < j ==> self.sources@[i as int].id != (
                    #[trigger] self.sources@[b]).id,
                decreases n - j,
            {
                if self.sources[i].id == self.sources[j].id {
                    return false;
                }
                j = j + 1;
            }
            i = i + 1;
        }
        true
    }
}

/// In a consistent registry a key names one source at most: whichever source
/// has the key is the one that a lookup returns.
pub proof fn lemma_lookup_unique(sources: Seq<Source>, id: u16, i: int)
    requires
        unique_ids(sources),
        0 <= i < sources.len(),
        sources[i].id == id,
    ensures
        is_first_with_id(sources, id, i),
        first_with_id(sources, id) == Some(i),
{
    assert forall|j: int| 0 <= j < i implies sources[j].id != id by {
        assert(sources[j].id != sources[i].id);
    }
    lemma_first_with_id(sources, id, i);
}

} // verus!
