use vstd::prelude::*;
use vstd::string::StrSliceExecFns;

verus! {

/// Why no window was chosen.
#[derive(Debug, PartialEq, Eq, Clone, Copy)]
pub enum WindowLookupError {
    /// The configured window name is empty.
    EmptyName,
    /// No window's title begins with the configured name.
    NotFound,
}

/// The lower-case form of a string, as `str::to_lowercase` gives it.
pub uninterp spec fn lowercase(s: Seq<char>) -> Seq<char>;

/// `str::to_lowercase`: the string with every character mapped to its
/// lower-case form. What that form is (Unicode's case tables) is left
/// unstated; the claim is only that the result depends on the text alone.
#[verifier::external_body]
fn to_lowercase(s: &str) -> (res: String)
    ensures
        res@ == lowercase(s@),
{
    s.to_lowercase()
}

/// Index of the first space in `t` at or after `i` (the length of `t` if
/// there is none).
pub open spec fn space_index(t: Seq<char>, i: nat) -> nat
    decreases t.len() - i,
{
    if i >= t.len() {
        t.len()
    } else if t[i as int] == ' ' {
        i
    } else {
        space_index(t, i + 1)
    }
}

/// The title's first word: everything before its first space.
pub open spec fn first_word(t: Seq<char>) -> Seq<char> {
    t.take(space_index(t, 0) as int)
}

/// A lower-cased first word as a plain sequence (`None` where a title
/// could not be read).
pub open spec fn word_view(word: Option<String>) -> Option<Seq<char>> {
    match word {
        Some(w) => Some(w@),
        None => None,
    }
}

/// What a window title is matched by: its first word, in lower case
/// (`None` where the title could not be read).
pub open spec fn title_word(title: Option<String>) -> Option<Seq<char>> {
    match title {
        Some(t) => Some(lowercase(first_word(t@))),
        None => None,
    }
}

/// Index of the first of `words`, from index `i` on, that is `name`.
pub open spec fn first_match(words: Seq<Option<Seq<char>>>, name: Seq<char>, i: nat) -> Option<nat>
    decreases words.len() - i,
{
    if i >= words.len() {
        None
    } else if words[i as int] == Some(name) {
        Some(i)
    } else {
        first_match(words, name, i + 1)
    }
}

/// The window picked by the words its titles are matched by: an empty name
/// picks nothing; otherwise the first window whose word is `name`.
pub open spec fn picked_window(words: Seq<Option<Seq<char>>>, name: Seq<char>) -> Result<
    usize,
    WindowLookupError,
> {
    if name.len() == 0 {
        Err(WindowLookupError::EmptyName)
    } else {
        match first_match(words, name, 0) {
            Some(i) => Ok(i as usize),
            None => Err(WindowLookupError::NotFound),
        }
    }
}

/// The window that the program works with, among windows whose titles are
/// `titles` (`None` where a title could not be read): the first one whose
/// title's first word, in lower case, equals `name`.
pub open spec fn chosen_window(titles: Seq<Option<String>>, name: Seq<char>) -> Result<
    usize,
    WindowLookupError,
> {
    picked_window(titles.map_values(|t: Option<String>| title_word(t)), name)
}

/// The first word of `title`.
fn title_first_word(title: &str) -> (res: &str)
    ensures
        res@ == first_word(title@),
{
    let n = title.unicode_len();
    let mut i: usize = 0;
    let mut found = false;
    while i < n && !found
        invariant
            n == title@.len(),
            i <= n,
            space_index(title@, 0) == space_index(title@, i as nat),
            found ==> i < n && title@[i as int] == ' ',
        decreases n - i + (if found { 0int } else { 1int }),
    {
        if title.get_char(i) == ' ' {
            found = true;
        } else {
            i += 1;
        }
    }
    title.substring_char(0, i)
}

/// Picks the game window by the lower-cased first words of the windows'
/// titles (`None` where a title could not be read): none for an empty
/// name, else the first window whose word equals `name`.
pub fn pick_window(words: &Vec<Option<String>>, name: &str) -> (res: Result<usize, WindowLookupError>)
    ensures
        res == picked_window(words@.map_values(|w: Option<String>| word_view(w)), name@),
{
    let ghost views = words@.map_values(|w: Option<String>| word_view(w));
    if name.is_empty() {
        return Err(WindowLookupError::EmptyName);
    }
    let wanted = String::from_str(name);
    let mut i: usize = 0;
    while i < words.len()
        invariant
            wanted@ == name@,
            name@.len() > 0,
            i <= words@.len(),
            views == words@.map_values(|w: Option<String>| word_view(w)),
            first_match(views, name@, 0) == first_match(views, name@, i as nat),
        decreases words@.len() - i,
    {
        let matched = match &words[i] {
            Some(word) => *word == wanted,
            None => false,
        };
        assert(views[i as int] == word_view(words@[i as int]));
        if matched {
            return Ok(i);
        }
        i += 1;
    }
    Err(WindowLookupError::NotFound)
}

/// Picks the game window among windows whose titles are `titles` (`None`
/// where a title could not be read): the first whose title's first word, in
/// lower case, equals `name`.
pub fn find_window(titles: &Vec<Option<String>>, name: &str) -> (res: Result<usize, WindowLookupError>)
    ensures
        res == chosen_window(titles@, name@),
{
    let mut words: Vec<Option<String>> = Vec::new();
    let mut i: usize = 0;
    while i < titles.len()
        invariant
            i <= titles@.len(),
            words@.len() == i,
            forall|j: int| 0 <= j < i ==> word_view(#[trigger] words@[j]) == title_word(titles@[j]),
        decreases titles@.len() - i,
    {
        let word = match &titles[i] {
            Some(title) => Some(to_lowercase(title_first_word(title.as_str()))),
            None => None,
        };
        words.push(word);
        i += 1;
    }
    assert(words@.map_values(|w: Option<String>| word_view(w)) =~= titles@.map_values(
        |t: Option<String>| title_word(t),
    ));
    pick_window(&words, name)
}

proof fn lemma_first_match(words: Seq<Option<Seq<char>>>, name: Seq<char>, i: nat)
    ensures
        first_match(words, name, i) matches Some(k) ==> i <= k < words.len() && words[k as int]
            == Some(name) && forall|j: int| i <= j < k ==> words[j] != Some(name),
        first_match(words, name, i) is None ==> forall|j: int|
            i <= j < words.len() ==> words[j] != Some(name),
    decreases words.len() - i,
{
    if i < words.len() && words[i as int] != Some(name) {
        lemma_first_match(words, name, i + 1);
    }
}

/// The window picked is the first one whose word is exactly `name`: an
/// empty name picks none; a window is picked only when its word equals
/// `name` and no earlier window's word does; none is picked only when no
/// window's word equals `name`.
pub proof fn law_picked_window_is_first_exact_match(words: Seq<Option<Seq<char>>>, name: Seq<char>)
    requires
        words.len() <= usize::MAX,
    ensures
        picked_window(words, name) == Err::<usize, WindowLookupError>(WindowLookupError::EmptyName)
            <==> name.len() == 0,
        picked_window(words, name) matches Ok(i) ==> i < words.len() && words[i as int] == Some(
            name,
        ) && forall|j: int| 0 <= j < i ==> words[j] != Some(name),
        picked_window(words, name) == Err::<usize, WindowLookupError>(WindowLookupError::NotFound)
            ==> forall|j: int| 0 <= j < words.len() ==> words[j] != Some(name),
{
    lemma_first_match(words, name, 0);
}

/// A title's first word is the text before its first space: it holds no
/// space, and it is either the whole title or followed by a space.
pub proof fn law_first_word_ends_at_first_space(t: Seq<char>)
    ensures
        first_word(t).len() <= t.len(),
        first_word(t) == t.take(first_word(t).len() as int),
        forall|j: int| 0 <= j < first_word(t).len() ==> first_word(t)[j] != ' ',
        first_word(t).len() == t.len() || t[first_word(t).len() as int] == ' ',
{
    lemma_space_index(t, 0);
}

proof fn lemma_space_index(t: Seq<char>, i: nat)
    requires
        i <= t.len(),
    ensures
        i <= space_index(t, i) <= t.len(),
        forall|j: int| i <= j < space_index(t, i) ==> t[j] != ' ',
        space_index(t, i) == t.len() || t[space_index(t, i) as int] == ' ',
    decreases t.len() - i,
{
    if i < t.len() && t[i as int] != ' ' {
        lemma_space_index(t, i + 1);
    }
}

/// The window chosen among titles is the first whose title can be read and
/// whose first word, in lower case, is exactly `name`; none is chosen only
/// when the name is empty or no title's lower-cased first word equals it.
pub proof fn law_chosen_window_is_first_exact_title(titles: Seq<Option<String>>, name: Seq<char>)
    requires
        titles.len() <= usize::MAX,
    ensures
        chosen_window(titles, name) matches Ok(i) ==> {
            &&& i < titles.len()
            &&& titles[i as int] is Some
            &&& lowercase(first_word(titles[i as int]->Some_0@)) == name
            &&& forall|j: int|
                0 <= j < i ==> !(titles[j] is Some && lowercase(first_word(titles[j]->Some_0@))
                    == name)
        },
        chosen_window(titles, name) == Err::<usize, WindowLookupError>(WindowLookupError::NotFound)
            ==> name.len() > 0 && forall|j: int|
            0 <= j < titles.len() ==> !(titles[j] is Some && lowercase(first_word(titles[j]->Some_0@))
                == name),
        chosen_window(titles, name) == Err::<usize, WindowLookupError>(WindowLookupError::EmptyName)
            <==> name.len() == 0,
{
    let words = titles.map_values(|t: Option<String>| title_word(t));
    law_picked_window_is_first_exact_match(words, name);
    assert(words.len() == titles.len());
    assert(chosen_window(titles, name) == picked_window(words, name));
    assert forall|j: int| 0 <= j < titles.len() implies (words[j] == Some(name) <==> (
    titles[j] is Some && lowercase(first_word(titles[j]->Some_0@)) == name)) by {
        assert(words[j] == title_word(titles[j]));
    }
    if let Ok(i) = picked_window(words, name) {
        assert(words[i as int] == Some(name));
        assert forall|j: int| 0 <= j < i implies !(titles[j] is Some && lowercase(
            first_word(titles[j]->Some_0@),
        ) == name) by {
            assert(words[j] != Some(name));
        }
    }
    if picked_window(words, name) == Err::<usize, WindowLookupError>(WindowLookupError::NotFound) {
        assert forall|j: int| 0 <= j < titles.len() implies !(titles[j] is Some && lowercase(
            first_word(titles[j]->Some_0@),
        ) == name) by {
            assert(words[j] != Some(name));
        }
    }
}

} // verus!
