//! The recipe store: the normalized, read-only collection of recipes.
//!
//! [`Recipes::load`] turns an already-parsed JSON document into the
//! collection, normalizing each scalar string field on the way: a historical
//! source format serialized some values as quoted strings-within-strings, so
//! one leading and one trailing double-quote character are stripped from each
//! field, independently of one another and without touching interior quotes.

use vstd::prelude::*;
use crate::error::LoadError;
use crate::error::StateError;
use crate::json::JsonValue;
use crate::json::field_lookup;

verus! {

/// `s` with one leading and one trailing double-quote character removed,
/// each independently of the other and only where present.
pub open spec fn strip_quotes_spec(s: Seq<char>) -> Seq<char> {
    let s1 = if s.len() > 0 && s[0] == '"' {
        s.drop_first()
    } else {
        s
    };
    if s1.len() > 0 && s1.last() == '"' {
        s1.drop_last()
    } else {
        s1
    }
}

/// Removes one leading and one trailing double-quote character from `s`,
/// independently of one another; interior quotes stay.
pub fn strip_quotes(s: &str) -> (r: String)
    ensures
        r@ == strip_quotes_spec(s@),
{
    let n = s.unicode_len();
    let start: usize = if n > 0 && s.get_char(0) == '"' {
        1
    } else {
        0
    };
    let end: usize = if n > start && s.get_char(n - 1) == '"' {
        n - 1
    } else {
        n
    };
    let r = s.substring_char(start, end).to_owned();
    proof {
        assert(r@ =~= strip_quotes_spec(s@));
    }
    r
}

/// The normalized string list a JSON array yields: every element must be a
/// string, and each is quote-stripped; `None` when some element is not a
/// string.
pub open spec fn string_list_spec(items: Seq<JsonValue>) -> Option<Seq<Seq<char>>>
    decreases items.len(),
{
    if items.len() == 0 {
        Some(Seq::empty())
    } else {
        match string_list_spec(items.drop_last()) {
            Some(init) => match items.last() {
                JsonValue::Str(s) => Some(init.push(strip_quotes_spec(s@))),
                _ => None,
            },
            None => None,
        }
    }
}

/// An element that is not a string spoils the whole list.
proof fn lemma_string_list_spec_none(items: Seq<JsonValue>, k: int)
    requires
        0 <= k < items.len(),
        !(items[k] is Str),
    ensures
        string_list_spec(items) is None,
    decreases items.len(),
{
    if k < items.len() - 1 {
        assert(items.drop_last()[k] == items[k]);
        lemma_string_list_spec_none(items.drop_last(), k);
    }
}

/// Normalizes a JSON array into a list of strings: every element must be a
/// string; each is quote-stripped. `None` when some element is not a string.
fn parse_string_list(items: &Vec<JsonValue>) -> (r: Option<Vec<String>>)
    ensures
        match (r, string_list_spec(items@)) {
            (Some(v), Some(m)) => v.deep_view() == m,
            (None, None) => true,
            _ => false,
        },
{
    let mut out: Vec<String> = Vec::new();
    let n = items.len();
    assert(items@.take(0) =~= Seq::<JsonValue>::empty());
    assert(out.deep_view() =~= Seq::<Seq<char>>::empty());
    for i in 0..n
        invariant
            n == items@.len(),
            string_list_spec(items@.take(i as int)) == Some(out.deep_view()),
    {
        match &items[i] {
            JsonValue::Str(s) => {
                let stripped = strip_quotes(s.as_str());
                let ghost prev = out.deep_view();
                out.push(stripped);
                proof {
                    assert(items@.take(i + 1).drop_last() =~= items@.take(i as int));
                    assert(items@.take(i + 1).last() == items@[i as int]);
                    assert(out.deep_view() =~= prev.push(strip_quotes_spec(s@)));
                }
            },
            _ => {
                proof {
                    lemma_string_list_spec_none(items@, i as int);
                }
                return None;
            },
        }
    }
    proof {
        assert(items@.take(n as int) =~= items@);
    }
    Some(out)
}

/// The normalized title an entry's fields yield: the `title` field must hold
/// a string that still reads something after quote stripping; otherwise the
/// entry lacks a usable title.
pub open spec fn entry_title_spec(fields: Seq<(String, JsonValue)>) -> Result<Seq<char>, LoadError> {
    match field_lookup(fields, "title"@) {
        Some(JsonValue::Str(s)) => {
            if strip_quotes_spec(s@).len() == 0 {
                Err(LoadError::MissingTitle)
            } else {
                Ok(strip_quotes_spec(s@))
            }
        },
        Some(_) => Err(LoadError::MissingTitle),
        None => Err(LoadError::MissingTitle),
    }
}

/// The normalized string list an entry's field `name` yields: an absent
/// field reads as the empty list; a present one must be an array of strings.
pub open spec fn entry_list_spec(fields: Seq<(String, JsonValue)>, name: Seq<char>) -> Result<
    Seq<Seq<char>>,
    LoadError,
> {
    match field_lookup(fields, name) {
        None => Ok(Seq::empty()),
        Some(JsonValue::Array(items)) => match string_list_spec(items@) {
            Some(lists) => Ok(lists),
            None => Err(LoadError::Malformed),
        },
        Some(_) => Err(LoadError::Malformed),
    }
}

/// The method steps an entry's fields yield: the `methods` field when the
/// document carries one, else the historical singular `method` field, either
/// defaulting to the empty list when absent.
pub open spec fn entry_methods_spec(fields: Seq<(String, JsonValue)>) -> Result<
    Seq<Seq<char>>,
    LoadError,
> {
    if field_lookup(fields, "methods"@) is Some {
        entry_list_spec(fields, "methods"@)
    } else {
        entry_list_spec(fields, "method"@)
    }
}

/// The recipe one entry of the document's array yields, or why it yields
/// none: the entry must be an object bearing a usable title; its ingredient
/// and method lists default to empty when absent. The title is examined
/// first, then the ingredients, then the methods.
pub open spec fn entry_spec(entry: JsonValue) -> Result<RecipeModel, LoadError> {
    match entry {
        JsonValue::Object(fields) => match entry_title_spec(fields@) {
            Err(e) => Err(e),
            Ok(title) => match entry_list_spec(fields@, "ingredients"@) {
                Err(e) => Err(e),
                Ok(ingredients) => match entry_methods_spec(fields@) {
                    Err(e) => Err(e),
                    Ok(methods) => Ok(RecipeModel { title, ingredients, methods }),
                },
            },
        },
        _ => Err(LoadError::Malformed),
    }
}

/// Normalizes one entry of the document's array into a recipe.
fn parse_entry(entry: &JsonValue) -> (r: Result<Recipe, LoadError>)
    ensures
        match (r, entry_spec(*entry)) {
            (Ok(rec), Ok(m)) => rec@ == m,
            (Err(e1), Err(e2)) => e1 == e2,
            _ => false,
        },
{
    match entry {
        JsonValue::Object(_) => (),
        _ => {
            return Err(LoadError::Malformed);
        },
    }
    let title: String;
    match entry.get_field("title") {
        Some(JsonValue::Str(s)) => {
            let stripped = strip_quotes(s.as_str());
            if stripped.as_str().is_empty() {
                return Err(LoadError::MissingTitle);
            }
            title = stripped;
        },
        _ => {
            return Err(LoadError::MissingTitle);
        },
    }
    let ingredients: Vec<String>;
    match entry.get_field("ingredients") {
        None => {
            ingredients = Vec::new();
            assert(ingredients.deep_view() =~= Seq::<Seq<char>>::empty());
        },
        Some(JsonValue::Array(items)) => match parse_string_list(items) {
            Some(v) => {
                ingredients = v;
            },
            None => {
                return Err(LoadError::Malformed);
            },
        },
        Some(_) => {
            return Err(LoadError::Malformed);
        },
    }
    let methods: Vec<String>;
    let methods_field = entry.get_field("methods");
    let chosen = if methods_field.is_some() {
        methods_field
    } else {
        entry.get_field("method")
    };
    match chosen {
        None => {
            methods = Vec::new();
            assert(methods.deep_view() =~= Seq::<Seq<char>>::empty());
        },
        Some(JsonValue::Array(items)) => match parse_string_list(items) {
            Some(v) => {
                methods = v;
            },
            None => {
                return Err(LoadError::Malformed);
            },
        },
        Some(_) => {
            return Err(LoadError::Malformed);
        },
    }
    Ok(Recipe { title, ingredients, methods })
}

/// The recipes the document's array yields, entry by entry in document
/// order; the leftmost failing entry decides the error, and one failing
/// entry rejects the whole document.
pub open spec fn entries_spec(entries: Seq<JsonValue>) -> Result<Seq<RecipeModel>, LoadError>
    decreases entries.len(),
{
    if entries.len() == 0 {
        Ok(Seq::empty())
    } else {
        match entries_spec(entries.drop_last()) {
            Ok(init) => match entry_spec(entries.last()) {
                Ok(m) => Ok(init.push(m)),
                Err(e) => Err(e),
            },
            Err(e) => Err(e),
        }
    }
}

/// Once a prefix of the entries fails, the whole document fails the same way.
proof fn lemma_entries_spec_err(entries: Seq<JsonValue>, k: int)
    requires
        0 <= k <= entries.len(),
        entries_spec(entries.take(k)) is Err,
    ensures
        entries_spec(entries) == entries_spec(entries.take(k)),
    decreases entries.len() - k,
{
    if k == entries.len() {
        assert(entries.take(k) =~= entries);
    } else {
        assert(entries.take(k + 1).drop_last() =~= entries.take(k));
        lemma_entries_spec_err(entries, k + 1);
    }
}

/// The collection a whole document yields, or why it yields none. The
/// document must be an array of recipe entries, either directly or under
/// the `recipe_details` key of a top-level object.
pub open spec fn load_spec(doc: JsonValue) -> Result<Seq<RecipeModel>, LoadError> {
    match doc {
        JsonValue::Array(entries) => entries_spec(entries@),
        JsonValue::Object(fields) => match field_lookup(fields@, "recipe_details"@) {
            Some(JsonValue::Array(entries)) => entries_spec(entries@),
            _ => Err(LoadError::Malformed),
        },
        _ => Err(LoadError::Malformed),
    }
}

/// A single recipe: a title with ordered ingredient and method-step lists.
pub struct Recipe {
    title: String,
    ingredients: Vec<String>,
    methods: Vec<String>,
}

/// The mathematical value of a [`Recipe`]: its three fields as sequences
/// of characters.
pub struct RecipeModel {
    pub title: Seq<char>,
    pub ingredients: Seq<Seq<char>>,
    pub methods: Seq<Seq<char>>,
}

impl View for Recipe {
    type V = RecipeModel;

    closed spec fn view(&self) -> RecipeModel {
        RecipeModel {
            title: self.title@,
            ingredients: self.ingredients.deep_view(),
            methods: self.methods.deep_view(),
        }
    }
}

impl DeepView for Recipe {
    type V = RecipeModel;

    closed spec fn deep_view(&self) -> RecipeModel {
        self.view()
    }
}

impl Recipe {
    /// The recipe's title.
    pub fn title(&self) -> (r: &String)
        ensures
            r@ == self@.title,
    {
        &self.title
    }

    /// The recipe's ingredients, in order.
    pub fn ingredients(&self) -> (r: &Vec<String>)
        ensures
            r.deep_view() == self@.ingredients,
    {
        &self.ingredients
    }

    /// The recipe's method steps, in order.
    pub fn methods(&self) -> (r: &Vec<String>)
        ensures
            r.deep_view() == self@.methods,
    {
        &self.methods
    }
}

/// Whether some entry of the index holds the ordinal `i`.
pub open spec fn ordinal_indexed(index: Seq<(String, Vec<usize>)>, i: int) -> bool {
    exists|j: int, k: int|
        0 <= j < index.len() && 0 <= k < index[j].1@.len() && #[trigger] index[j].1@[k] == i
}

/// What makes a title index sound for a collection: every position an entry
/// holds is a valid ordinal whose recipe bears the entry's key as title,
/// each entry's positions come in increasing order, no two entries share a
/// key, and every ordinal appears under some entry.
pub open spec fn index_wf(index: Seq<(String, Vec<usize>)>, recipes: Seq<RecipeModel>) -> bool {
    &&& forall|j: int, k: int|
        0 <= j < index.len() && 0 <= k < index[j].1@.len()
            ==> #[trigger] index[j].1@[k] < recipes.len()
                && recipes[index[j].1@[k] as int].title == index[j].0@
    &&& forall|j: int, k1: int, k2: int|
        #![trigger index[j].1@[k1], index[j].1@[k2]]
        0 <= j < index.len() && 0 <= k1 < k2 < index[j].1@.len()
            ==> index[j].1@[k1] < index[j].1@[k2]
    &&& forall|j1: int, j2: int|
        #![trigger index[j1].0@, index[j2].0@]
        0 <= j1 < j2 < index.len() ==> index[j1].0@ != index[j2].0@
    &&& forall|i: int| 0 <= i < recipes.len() ==> #[trigger] ordinal_indexed(index, i)
}

/// The position of the index entry bearing `key`, when one does.
fn find_key(index: &Vec<(String, Vec<usize>)>, key: &String) -> (r: Option<usize>)
    ensures
        match r {
            Some(j) => j < index@.len() && index@[j as int].0@ == key@,
            None => forall|j: int| #![trigger index@[j]] 0 <= j < index@.len() ==> index@[j].0@ != key@,
        },
{
    let n = index.len();
    for j in 0..n
        invariant
            n == index@.len(),
            forall|jj: int| #![trigger index@[jj]] 0 <= jj < j ==> index@[jj].0@ != key@,
    {
        if index[j].0.eq(key) {
            return Some(j);
        }
    }
    None
}

/// Groups the recipes' ordinals under their titles: one index entry per
/// distinct title, in order of first appearance, each holding the ordinals
/// that bear it in increasing order.
fn build_index(details: &Vec<Recipe>) -> (index: Vec<(String, Vec<usize>)>)
    ensures
        index_wf(index@, details.deep_view()),
{
    let mut index: Vec<(String, Vec<usize>)> = Vec::new();
    let n = details.len();
    for i in 0..n
        invariant
            n == details@.len(),
            forall|j: int, k: int|
                0 <= j < index@.len() && 0 <= k < index@[j].1@.len()
                    ==> #[trigger] index@[j].1@[k] < i
                        && details.deep_view()[index@[j].1@[k] as int].title == index@[j].0@,
            forall|j: int, k1: int, k2: int|
                #![trigger index@[j].1@[k1], index@[j].1@[k2]]
                0 <= j < index@.len() && 0 <= k1 < k2 < index@[j].1@.len()
                    ==> index@[j].1@[k1] < index@[j].1@[k2],
            forall|j1: int, j2: int|
                #![trigger index@[j1].0@, index@[j2].0@]
                0 <= j1 < j2 < index@.len() ==> index@[j1].0@ != index@[j2].0@,
            forall|ii: int| 0 <= ii < i ==> #[trigger] ordinal_indexed(index@, ii),
    {
        let title = &details[i].title;
        let ghost old_index = index@;
        match find_key(&index, title) {
            Some(j) => {
                let (key, mut positions) = index.remove(j);
                let ghost old_positions = positions@;
                positions.push(i);
                index.insert(j, (key, positions));
                proof {
                    assert(index@ =~= old_index.update(j as int, index@[j as int]));
                    assert(index@[j as int].0 == old_index[j as int].0);
                    assert(index@[j as int].1@ =~= old_positions.push(i as usize));
                    assert(details.deep_view()[i as int].title == details@[i as int]@.title);
                    assert forall|ii: int| 0 <= ii < i + 1 implies #[trigger] ordinal_indexed(
                        index@,
                        ii,
                    ) by {
                        if ii == i {
                            assert(index@[j as int].1@[old_positions.len() as int] == ii);
                        } else {
                            assert(ordinal_indexed(old_index, ii));
                            let (j0, k0) = choose|j0: int, k0: int|
                                0 <= j0 < old_index.len() && 0 <= k0 < old_index[j0].1@.len()
                                    && #[trigger] old_index[j0].1@[k0] == ii;
                            if j0 == j as int {
                                assert(old_index[j0].1@ == old_positions);
                                assert(index@[j0].1@[k0] == old_positions.push(i as usize)[k0]);
                                assert(index@[j0].1@[k0] == ii);
                            } else {
                                assert(index@[j0] == old_index[j0]);
                                assert(index@[j0].1@[k0] == ii);
                            }
                        }
                    }
                }
            },
            None => {
                let mut positions: Vec<usize> = Vec::new();
                positions.push(i);
                index.push((title.clone(), positions));
                proof {
                    assert(index@ =~= old_index.push(index@[old_index.len() as int]));
                    assert(index@[old_index.len() as int].1@ =~= seq![i as usize]);
                    assert(details.deep_view()[i as int].title == details@[i as int]@.title);
                    assert forall|ii: int| 0 <= ii < i + 1 implies #[trigger] ordinal_indexed(
                        index@,
                        ii,
                    ) by {
                        if ii == i {
                            assert(index@[old_index.len() as int].1@[0] == ii);
                        } else {
                            assert(ordinal_indexed(old_index, ii));
                            let (j0, k0) = choose|j0: int, k0: int|
                                0 <= j0 < old_index.len() && 0 <= k0 < old_index[j0].1@.len()
                                    && #[trigger] old_index[j0].1@[k0] == ii;
                            assert(index@[j0] == old_index[j0]);
                            assert(index@[j0].1@[k0] == ii);
                        }
                    }
                }
            },
        }
    }
    index
}

/// An indexed, read-only collection of recipes in canonical display order.
pub struct Recipes {
    index: Vec<(String, Vec<usize>)>,
    recipe_details: Vec<Recipe>,
}

impl View for Recipes {
    type V = Seq<RecipeModel>;

    closed spec fn view(&self) -> Seq<RecipeModel> {
        self.recipe_details.deep_view()
    }
}

impl Recipes {
    /// Returns a new, empty recipe collection.
    pub fn new() -> (r: Self)
        ensures
            r@.len() == 0,
            r.wf(),
    {
        Recipes { index: Vec::new(), recipe_details: Vec::new() }
    }

    /// Returns the number of recipes in this collection.
    pub fn len(&self) -> (r: usize)
        ensures
            r == self@.len(),
    {
        self.recipe_details.len()
    }

    /// Every ordinal the index holds is a valid offset into the collection,
    /// its recipe bears the entry's key as title, keys are distinct, and
    /// every recipe can be found under its own title.
    pub closed spec fn wf(&self) -> bool {
        index_wf(self.index@, self@)
    }

    /// Parses and normalizes an already-parsed JSON document into a recipe
    /// collection: the document must be an array of recipe entries, either
    /// directly or under the `recipe_details` key of a top-level object.
    /// One failing entry rejects the whole document; nothing partial ever
    /// comes back.
    pub fn load(doc: &JsonValue) -> (r: Result<Recipes, LoadError>)
        ensures
            match (r, load_spec(*doc)) {
                (Ok(recipes), Ok(models)) => recipes@ == models && recipes.wf(),
                (Err(e1), Err(e2)) => e1 == e2,
                _ => false,
            },
    {
        let entries: &Vec<JsonValue>;
        match doc {
            JsonValue::Array(items) => {
                entries = items;
            },
            JsonValue::Object(_) => match doc.get_field("recipe_details") {
                Some(JsonValue::Array(items)) => {
                    entries = items;
                },
                _ => {
                    return Err(LoadError::Malformed);
                },
            },
            _ => {
                return Err(LoadError::Malformed);
            },
        }
        let mut details: Vec<Recipe> = Vec::new();
        let n = entries.len();
        assert(entries@.take(0) =~= Seq::<JsonValue>::empty());
        assert(details.deep_view() =~= Seq::<RecipeModel>::empty());
        for idx in 0..n
            invariant
                n == entries@.len(),
                entries_spec(entries@.take(idx as int)) == Ok::<_, LoadError>(details.deep_view()),
                load_spec(*doc) == entries_spec(entries@),
        {
            let ghost prev = details.deep_view();
            match parse_entry(&entries[idx]) {
                Ok(rec) => {
                    let ghost recm = rec@;
                    details.push(rec);
                    proof {
                        assert(entries@.take(idx + 1).drop_last() =~= entries@.take(idx as int));
                        assert(entries@.take(idx + 1).last() == entries@[idx as int]);
                        assert(details.deep_view() =~= prev.push(recm));
                    }
                },
                Err(e) => {
                    proof {
                        assert(entries@.take(idx + 1).drop_last() =~= entries@.take(idx as int));
                        assert(entries@.take(idx + 1).last() == entries@[idx as int]);
                        assert(entries_spec(entries@.take(idx + 1)) is Err);
                        lemma_entries_spec_err(entries@, idx + 1);
                    }
                    return Err(e);
                },
            }
        }
        assert(entries@.take(n as int) =~= entries@);
        let index = build_index(&details);
        Ok(Recipes { index, recipe_details: details })
    }

    /// Looks `title` up in the index: the positions handed back are exactly
    /// the ordinals of the recipes bearing that title, and `None` comes back
    /// only when no recipe bears it.
    pub fn ordinals_for_title(&self, title: &String) -> (r: Option<&Vec<usize>>)
        requires
            self.wf(),
        ensures
            match r {
                Some(positions) => {
                    &&& forall|k: int|
                        0 <= k < positions@.len() ==> #[trigger] positions@[k] < self@.len()
                            && self@[positions@[k] as int].title == title@
                    &&& forall|k1: int, k2: int|
                        #![trigger positions@[k1], positions@[k2]]
                        0 <= k1 < k2 < positions@.len() ==> positions@[k1] < positions@[k2]
                    &&& forall|i: int|
                        0 <= i < self@.len() && (#[trigger] self@[i]).title == title@
                            ==> positions@.contains(i as usize)
                },
                None => forall|i: int|
                    0 <= i < self@.len() ==> (#[trigger] self@[i]).title != title@,
            },
    {
        match find_key(&self.index, title) {
            Some(j) => {
                let positions = &self.index[j].1;
                proof {
                    assert forall|i: int|
                        0 <= i < self@.len() && (#[trigger] self@[i]).title
                            == title@ implies positions@.contains(i as usize) by {
                        assert(ordinal_indexed(self.index@, i));
                        let (j0, k0) = choose|j0: int, k0: int|
                            0 <= j0 < self.index@.len() && 0 <= k0 < self.index@[j0].1@.len()
                                && #[trigger] self.index@[j0].1@[k0] == i;
                        assert(self@[i].title == self.index@[j0].0@);
                        if j0 < j as int {
                            assert(self.index@[j0].0@ != self.index@[j as int].0@);
                        } else if j0 > j as int {
                            assert(self.index@[j as int].0@ != self.index@[j0].0@);
                        }
                        assert(j0 == j as int);
                        assert(positions@[k0] == i as usize);
                    }
                }
                Some(positions)
            },
            None => {
                proof {
                    assert forall|i: int| 0 <= i < self@.len() implies (#[trigger] self@[i]).title
                        != title@ by {
                        assert(ordinal_indexed(self.index@, i));
                        let (j0, k0) = choose|j0: int, k0: int|
                            0 <= j0 < self.index@.len() && 0 <= k0 < self.index@[j0].1@.len()
                                && #[trigger] self.index@[j0].1@[k0] == i;
                        assert(self@[i].title == self.index@[j0].0@);
                    }
                }
                None
            },
        }
    }

    /// Returns the recipe at `ordinal`, or `IndexError` when `ordinal` lies
    /// past the end of the collection.
    pub fn get(&self, ordinal: usize) -> (r: Result<&Recipe, StateError>)
        ensures
            ordinal < self@.len() ==> (r matches Ok(rec) && rec@ == self@[ordinal as int]),
            ordinal >= self@.len() ==> r == Err::<&Recipe, _>(StateError::IndexError),
    {
        if ordinal < self.recipe_details.len() {
            Ok(&self.recipe_details[ordinal])
        } else {
            Err(StateError::IndexError)
        }
    }
}

} // verus!
