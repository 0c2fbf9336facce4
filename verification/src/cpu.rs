//! The CPU brand string: its whitespace-separated tokens, the vendor and model
//! taken from them, and the generation code read off the model.

use vstd::prelude::*;

verus! {

/// Why a brand string could not be parsed.
#[derive(Debug, Clone, Copy, PartialEq, Eq, Structural)]
pub enum ParseError {
    /// The brand string has fewer than four whitespace-separated tokens.
    MalformedBrandString,
}

impl ParseError {
    /// A sentence that describes the error.
    pub fn message(&self) -> (text: String)
        ensures
            text@ == "brand string has fewer than four whitespace-separated tokens"@,
    {
        "brand string has fewer than four whitespace-separated tokens".to_owned()
    }
}

/// Number of the token that holds the model, counted from zero.
pub const MODEL_TOKEN: usize = 3;

/// Whether `c` separates tokens: the characters with Unicode's `White_Space`
/// property.
pub open spec fn is_whitespace(c: char) -> bool {
    let u = c as u32;
    ||| 0x09 <= u <= 0x0D
    ||| u == 0x20
    ||| u == 0x85
    ||| u == 0xA0
    ||| u == 0x1680
    ||| 0x2000 <= u <= 0x200A
    ||| u == 0x2028
    ||| u == 0x2029
    ||| u == 0x202F
    ||| u == 0x205F
    ||| u == 0x3000
}

/// The tokens of `s` when `word` is the token that was being read just before
/// `s`: an empty `word` means that none was.
pub open spec fn split_from(s: Seq<char>, word: Seq<char>) -> Seq<Seq<char>>
    decreases s.len(),
{
    if s.len() == 0 {
        if word.len() == 0 {
            Seq::empty()
        } else {
            seq![word]
        }
    } else if is_whitespace(s[0]) {
        if word.len() == 0 {
            split_from(s.skip(1), word)
        } else {
            seq![word] + split_from(s.skip(1), Seq::empty())
        }
    } else {
        split_from(s.skip(1), word.push(s[0]))
    }
}

/// The maximal runs of characters of `s` that hold no whitespace, in order.
pub open spec fn tokens(s: Seq<char>) -> Seq<Seq<char>> {
    split_from(s, Seq::empty())
}

/// Whether `w` can be a token: at least one character, none of them whitespace.
pub open spec fn is_word(w: Seq<char>) -> bool {
    w.len() > 0 && forall|i: int| 0 <= i < w.len() ==> !is_whitespace(#[trigger] w[i])
}

proof fn lemma_split_from_words(s: Seq<char>, word: Seq<char>)
    requires
        forall|i: int| 0 <= i < word.len() ==> !is_whitespace(#[trigger] word[i]),
    ensures
        forall|k: int|
            0 <= k < split_from(s, word).len() ==> is_word(#[trigger] split_from(s, word)[k]),
    decreases s.len(),
{
    let all = split_from(s, word);
    if s.len() == 0 {
        if word.len() > 0 {
            assert(is_word(word));
            assert(all == seq![word]);
            assert forall|k: int| 0 <= k < all.len() implies is_word(#[trigger] all[k]) by {
                assert(all[k] == word);
            }
        }
    } else if is_whitespace(s[0]) {
        if word.len() == 0 {
            lemma_split_from_words(s.skip(1), word);
            assert(all == split_from(s.skip(1), word));
        } else {
            let rest = split_from(s.skip(1), Seq::empty());
            lemma_split_from_words(s.skip(1), Seq::empty());
            assert(is_word(word));
            assert(all == seq![word] + rest);
            assert forall|k: int| 0 <= k < all.len() implies is_word(#[trigger] all[k]) by {
                if k > 0 {
                    assert(all[k] == rest[k - 1]);
                } else {
                    assert(all[k] == word);
                }
            }
        }
    } else {
        let longer = word.push(s[0]);
        assert forall|i: int| 0 <= i < longer.len() implies !is_whitespace(
            #[trigger] longer[i],
        ) by {
            if i < word.len() {
                assert(longer[i] == word[i]);
            }
        }
        lemma_split_from_words(s.skip(1), longer);
        assert(all == split_from(s.skip(1), longer));
    }
}

proof fn lemma_split_from_word(s: Seq<char>, word: Seq<char>)
    requires
        s.len() + word.len() > 0,
        forall|i: int| 0 <= i < s.len() ==> !is_whitespace(#[trigger] s[i]),
    ensures
        split_from(s, word) == seq![word + s],
    decreases s.len(),
{
    if s.len() == 0 {
        assert(word + s == word);
    } else {
        let rest = s.skip(1);
        assert forall|i: int| 0 <= i < rest.len() implies !is_whitespace(#[trigger] rest[i]) by {
            assert(rest[i] == s[i + 1]);
        }
        lemma_split_from_word(rest, word.push(s[0]));
        assert(word.push(s[0]) + rest == word + s);
    }
}

proof fn lemma_split_from_across(a: Seq<char>, c: char, b: Seq<char>, word: Seq<char>)
    requires
        is_whitespace(c),
    ensures
        split_from(a + seq![c] + b, word) == split_from(a, word) + tokens(b),
    decreases a.len(),
{
    let s = a + seq![c] + b;
    if a.len() == 0 {
        assert(s[0] == c);
        assert(s.skip(1) == b);
        if word.len() == 0 {
            assert(word == Seq::<char>::empty());
            assert(split_from(s, word) == tokens(b));
            assert(split_from(a, word) == Seq::<Seq<char>>::empty());
            assert(Seq::<Seq<char>>::empty() + tokens(b) == tokens(b));
        } else {
            assert(split_from(s, word) == seq![word] + tokens(b));
            assert(split_from(a, word) == seq![word]);
        }
    } else {
        let rest = a.skip(1);
        assert(s[0] == a[0]);
        assert(s.skip(1) == rest + seq![c] + b);
        if is_whitespace(a[0]) {
            if word.len() == 0 {
                lemma_split_from_across(rest, c, b, word);
            } else {
                assert(word.len() > 0);
                lemma_split_from_across(rest, c, b, Seq::empty());
                let left = split_from(rest, Seq::empty());
                assert(seq![word] + (left + tokens(b)) == (seq![word] + left) + tokens(b));
            }
        } else {
            lemma_split_from_across(rest, c, b, word.push(a[0]));
        }
    }
}

/// Every token has at least one character and holds no whitespace.
pub proof fn lemma_tokens_are_words(s: Seq<char>)
    ensures
        forall|k: int| 0 <= k < tokens(s).len() ==> is_word(#[trigger] tokens(s)[k]),
{
    lemma_split_from_words(s, Seq::empty());
}

/// A string without whitespace is its own one token.
pub proof fn lemma_tokens_of_word(w: Seq<char>)
    requires
        is_word(w),
    ensures
        tokens(w) == seq![w],
{
    lemma_split_from_word(w, Seq::empty());
    assert(Seq::<char>::empty() + w == w);
}

/// The tokens of two strings joined by a whitespace character are the tokens of
/// the first, then those of the second.
pub proof fn lemma_tokens_across_whitespace(a: Seq<char>, c: char, b: Seq<char>)
    requires
        is_whitespace(c),
    ensures
        tokens(a + seq![c] + b) == tokens(a) + tokens(b),
{
    lemma_split_from_across(a, c, b, Seq::empty());
}

/// Whether `s` begins with the registered-trademark mark, `(R)`.
pub open spec fn starts_with_mark(s: Seq<char>) -> bool {
    s.len() >= 3 && s[0] == '(' && s[1] == 'R' && s[2] == ')'
}

/// `s` with every occurrence of `(R)` taken out, found from left to right.
pub open spec fn without_mark(s: Seq<char>) -> Seq<char>
    decreases s.len(),
{
    if s.len() == 0 {
        s
    } else if starts_with_mark(s) {
        without_mark(s.skip(3))
    } else {
        seq![s[0]] + without_mark(s.skip(1))
    }
}

/// Where the first `-` of `model` stands, or the length of `model` if it has none.
pub open spec fn first_dash(model: Seq<char>) -> int
    decreases model.len(),
{
    if model.len() == 0 || model[0] == '-' {
        0
    } else {
        1 + first_dash(model.skip(1))
    }
}

/// What stands for a generation that the model does not show.
pub open spec fn unknown_generation() -> Seq<char> {
    "Unknown"@
}

/// The generation code of `model`: the one character behind its first `-`, or
/// `Unknown` where there is no `-` or nothing behind it.
pub open spec fn generation_code(model: Seq<char>) -> Seq<char> {
    let dash = first_dash(model);
    if dash + 1 < model.len() {
        seq![model[dash + 1]]
    } else {
        unknown_generation()
    }
}

/// `first_dash` is the one position that has a `-` (or the end) and none before it.
pub proof fn lemma_first_dash(model: Seq<char>, i: int)
    requires
        0 <= i <= model.len(),
        i < model.len() ==> model[i] == '-',
        forall|j: int| 0 <= j < i ==> model[j] != '-',
    ensures
        first_dash(model) == i,
    decreases i,
{
    if i > 0 {
        let rest = model.skip(1);
        assert forall|j: int| 0 <= j < i - 1 implies rest[j] != '-' by {
            assert(rest[j] == model[j + 1]);
        }
        lemma_first_dash(rest, i - 1);
    }
}

/// Where a `-` stands at `i` with none before it and a character behind it, the
/// generation is that one character.
pub proof fn lemma_generation_follows_first_dash(model: Seq<char>, i: int)
    requires
        0 <= i,
        i + 1 < model.len(),
        model[i] == '-',
        forall|j: int| 0 <= j < i ==> model[j] != '-',
    ensures
        generation_code(model) == seq![model[i + 1]],
{
    lemma_first_dash(model, i);
}

/// A model without any `-` has an unknown generation.
pub proof fn lemma_generation_unknown_without_dash(model: Seq<char>)
    requires
        forall|j: int| 0 <= j < model.len() ==> model[j] != '-',
    ensures
        generation_code(model) == unknown_generation(),
{
    lemma_first_dash(model, model.len() as int);
}

/// A model whose first `-` is its last character has an unknown generation.
pub proof fn lemma_generation_unknown_after_last_dash(model: Seq<char>)
    requires
        model.len() > 0,
        model[model.len() - 1] == '-',
        forall|j: int| 0 <= j < model.len() - 1 ==> model[j] != '-',
    ensures
        generation_code(model) == unknown_generation(),
{
    lemma_first_dash(model, model.len() - 1);
}

/// Tells whether `c` is whitespace.
pub fn is_space(c: char) -> (yes: bool)
    ensures
        yes == is_whitespace(c),
{
    let u: u32 = c as u32;
    (0x09 <= u && u <= 0x0D) || u == 0x20 || u == 0x85 || u == 0xA0 || u == 0x1680 || (0x2000 <= u
        && u <= 0x200A) || u == 0x2028 || u == 0x2029 || u == 0x202F || u == 0x205F || u == 0x3000
}

/// Splits `s` into its whitespace-separated tokens.
pub fn split_whitespace(s: &str) -> (parts: Vec<String>)
    ensures
        parts.len() == tokens(s@).len(),
        forall|k: int| 0 <= k < parts.len() ==> parts[k]@ == #[trigger] tokens(s@)[k],
{
    let n: usize = s.unicode_len();
    let mut parts: Vec<String> = Vec::new();
    let mut start: usize = 0;
    let mut i: usize = 0;
    let ghost mut done: Seq<Seq<char>> = Seq::empty();
    proof {
        assert(s@.skip(0) == s@);
        assert(s@.subrange(0, 0) == Seq::<char>::empty());
        assert(done + tokens(s@) == tokens(s@));
    }
    while i < n
        invariant
            n == s@.len(),
            start <= i <= n,
            parts.len() == done.len(),
            forall|k: int| 0 <= k < parts.len() ==> parts[k]@ == #[trigger] done[k],
            tokens(s@) == done + split_from(s@.skip(i as int), s@.subrange(start as int, i as int)),
        decreases n - i,
    {
        let c: char = s.get_char(i);
        let ghost rest = s@.skip(i as int);
        let ghost word = s@.subrange(start as int, i as int);
        proof {
            assert(rest[0] == c);
            assert(rest.skip(1) == s@.skip(i + 1));
        }
        if is_space(c) {
            if start < i {
                parts.push(s.substring_char(start, i).to_owned());
                proof {
                    let after = split_from(s@.skip(i + 1), Seq::empty());
                    assert(done + (seq![word] + after) == done.push(word) + after);
                    done = done.push(word);
                }
            }
            proof {
                if start == i {
                    assert(word == Seq::<char>::empty());
                }
                assert(s@.subrange(i + 1, i + 1) == Seq::<char>::empty());
            }
            start = i + 1;
        } else {
            proof {
                assert(word.push(c) == s@.subrange(start as int, i + 1));
                assert(split_from(rest, word) == split_from(rest.skip(1), word.push(rest[0])));
            }
        }
        i = i + 1;
    }
    proof {
        assert(s@.skip(i as int).len() == 0);
    }
    if start < i {
        parts.push(s.substring_char(start, i).to_owned());
        proof {
            let word = s@.subrange(start as int, i as int);
            assert(done + seq![word] == done.push(word));
            done = done.push(word);
        }
    } else {
        proof {
            assert(done + Seq::<Seq<char>>::empty() == done);
        }
    }
    parts
}

/// Takes every `(R)` out of `s`.
pub fn strip_registered(s: &str) -> (out: String)
    ensures
        out@ == without_mark(s@),
{
    let n: usize = s.unicode_len();
    let mut out: String = String::new();
    let mut i: usize = 0;
    proof {
        assert(s@.skip(0) == s@);
        assert(out@ + without_mark(s@) == without_mark(s@));
    }
    while i < n
        invariant
            n == s@.len(),
            i <= n,
            without_mark(s@) == out@ + without_mark(s@.skip(i as int)),
        decreases n - i,
    {
        let ghost rest = s@.skip(i as int);
        let ghost before = out@;
        if n - i >= 3 && s.get_char(i) == '(' && s.get_char(i + 1) == 'R' && s.get_char(i + 2)
            == ')' {
            proof {
                assert(starts_with_mark(rest));
                assert(rest.skip(3) == s@.skip(i + 3));
            }
            i = i + 3;
        } else {
            out.append(s.substring_char(i, i + 1));
            proof {
                assert(!starts_with_mark(rest));
                assert(rest.skip(1) == s@.skip(i + 1));
                assert(s@.subrange(i as int, i + 1) == seq![rest[0]]);
                assert(before + (seq![rest[0]] + without_mark(rest.skip(1))) == (before
                    + seq![rest[0]]) + without_mark(rest.skip(1)));
            }
            i = i + 1;
        }
    }
    proof {
        assert(s@.skip(i as int).len() == 0);
        assert(out@ + Seq::<char>::empty() == out@);
    }
    out
}

/// Reads the generation code off a model: the character behind its first `-`.
pub fn generation_of(model: &str) -> (code: String)
    ensures
        code@ == generation_code(model@),
{
    let n: usize = model.unicode_len();
    let mut i: usize = 0;
    while i < n && model.get_char(i) != '-'
        invariant
            n == model@.len(),
            i <= n,
            forall|j: int| 0 <= j < i ==> model@[j] != '-',
        decreases n - i,
    {
        i = i + 1;
    }
    proof {
        lemma_first_dash(model@, i as int);
    }
    if i < n && n - i > 1 {
        proof {
            assert(model@.subrange(i + 1, i + 2) == seq![model@[i + 1]]);
        }
        model.substring_char(i + 1, i + 2).to_owned()
    } else {
        "Unknown".to_owned()
    }
}

/// Vendor and model of a CPU, as its brand string gives them.
#[derive(Debug, Clone)]
pub struct CpuInfo {
    /// The first token of the brand string, without `(R)`.
    pub vendor: String,
    /// The fourth token of the brand string.
    pub model: String,
}

impl CpuInfo {
    /// Parses a brand string such as `Intel(R) Core(TM) i7-8700 CPU @ 3.20GHz`.
    ///
    /// The vendor is the first token without `(R)`, the model the fourth token.
    /// A brand string of fewer than four tokens is malformed.
    pub fn split_create_struct(brand: &str) -> (parsed: Result<CpuInfo, ParseError>)
        ensures
            parsed is Ok <==> tokens(brand@).len() > MODEL_TOKEN,
            parsed is Ok ==> parsed->Ok_0.vendor@ == without_mark(tokens(brand@)[0])
                && parsed->Ok_0.model@ == tokens(brand@)[MODEL_TOKEN as int],
            parsed is Err ==> parsed->Err_0 == ParseError::MalformedBrandString,
    {
        let parts: Vec<String> = split_whitespace(brand);
        if parts.len() <= MODEL_TOKEN {
            return Err(ParseError::MalformedBrandString);
        }
        let vendor: String = strip_registered(parts[0].as_str());
        let model: String = parts[MODEL_TOKEN].clone();
        Ok(CpuInfo { vendor, model })
    }

    /// The generation code of this CPU's model.
    pub fn get_generation(&self) -> (code: String)
        ensures
            code@ == generation_code(self.model@),
    {
        generation_of(self.model.as_str())
    }
}

} // verus!
