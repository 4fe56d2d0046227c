use vstd::prelude::*;

verus! {

/// The texts of a vector of strings.
pub open spec fn texts(v: Seq<String>) -> Seq<Seq<char>> {
    v.map_values(|s: String| s@)
}

/// `ws` without any copy of `w`.
pub open spec fn without_word(ws: Seq<Seq<char>>, w: Seq<char>) -> Seq<Seq<char>> {
    ws.filter(|x: Seq<char>| x != w)
}

/// Whether `words` holds `w`.
pub fn holds_word(words: &Vec<String>, w: &String) -> (r: bool)
    ensures
        r == texts(words@).contains(w@),
{
    let mut i: usize = 0;
    while i < words.len()
        invariant
            i <= words.len(),
            forall|j: int| 0 <= j < i ==> (#[trigger] words@[j])@ != w@,
        decreases words.len() - i,
    {
        if words[i] == *w {
            assert(texts(words@)[i as int] == w@);
            return true;
        }
        i = i + 1;
    }
    assert forall|j: int| 0 <= j < texts(words@).len() implies #[trigger] texts(words@)[j] != w@ by {
        assert(texts(words@)[j] == words@[j]@);
    }
    false
}

/// Removes every copy of `w` from `words`.
pub fn remove_word(words: &Vec<String>, w: &String) -> (r: Vec<String>)
    ensures
        texts(r@) == without_word(texts(words@), w@),
{
    let mut r: Vec<String> = Vec::new();
    let mut i: usize = 0;
    while i < words.len()
        invariant
            i <= words.len(),
            texts(r@) == without_word(texts(words@).take(i as int), w@),
        decreases words.len() - i,
    {
        assert(texts(words@).take(i + 1).drop_last() =~= texts(words@).take(i as int));
        assert(texts(words@).take(i + 1).last() == words@[i as int]@);
        reveal_with_fuel(Seq::filter, 1);
        let ghost prev = r@;
        if words[i] != *w {
            r.push(words[i].clone());
            assert(texts(r@) =~= texts(prev).push(words@[i as int]@));
        }
        i = i + 1;
    }
    assert(texts(words@).take(words.len() as int) =~= texts(words@));
    r
}

/// Filtering out `w` keeps every other word that the list holds.
pub proof fn lemma_filter_keeps(ws: Seq<Seq<char>>, w: Seq<char>, x: Seq<char>)
    requires
        x != w,
    ensures
        without_word(ws, w).contains(x) == ws.contains(x),
    decreases ws.len(),
{
    reveal_with_fuel(Seq::filter, 1);
    if ws.len() > 0 {
        lemma_filter_keeps(ws.drop_last(), w, x);
        let f = without_word(ws.drop_last(), w);
        if ws.last() != w {
            assert(without_word(ws, w) =~= f.push(ws.last()));
            if f.push(ws.last()).contains(x) {
                let i = choose|i: int| 0 <= i < f.push(ws.last()).len() && f.push(ws.last())[i] == x;
                if i < f.len() {
                    assert(f[i] == x);
                }
            }
            if f.contains(x) {
                let i = choose|i: int| 0 <= i < f.len() && f[i] == x;
                assert(f.push(ws.last())[i] == x);
            }
        } else {
            assert(without_word(ws, w) =~= f);
        }
        if ws.contains(x) {
            let i = choose|i: int| 0 <= i < ws.len() && ws[i] == x;
            if i < ws.len() - 1 {
                assert(ws.drop_last()[i] == x);
            }
        }
        if ws.drop_last().contains(x) {
            let i = choose|i: int| 0 <= i < ws.drop_last().len() && ws.drop_last()[i] == x;
            assert(ws[i] == x);
        }
    }
}

} // verus!
