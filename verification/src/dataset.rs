use vstd::prelude::*;
use vstd::string::*;

use crate::text::char_is_alphanumeric;
use crate::text::char_is_whitespace;
use crate::text::chars_vec;
use crate::text::is_alnum_char;
use crate::text::is_space_char;
use crate::text::lower_of;
use crate::text::lowercase;
use crate::text::string_from_chars;

verus! {

/// The set of character sequences a list of words holds.
pub open spec fn words_set(ws: Seq<String>) -> Set<Seq<char>> {
    Set::new(|w: Seq<char>| exists|i: int| 0 <= i < ws.len() && ws[i]@ == w)
}

/// The words the embedding table knows.  The table itself maps each word to
/// a numeric vector; the cleaning pipeline only ever asks whether a word is
/// present, so this is all of it the pipeline carries.
pub struct Vocabulary {
    words: Vec<String>,
}

impl View for Vocabulary {
    type V = Set<Seq<char>>;

    closed spec fn view(&self) -> Set<Seq<char>> {
        words_set(self.words@)
    }
}

impl Vocabulary {
    /// Gather the words of the embedding table.
    pub fn from_words(words: Vec<String>) -> (v: Vocabulary)
        ensures
            v@ == words_set(words@),
    {
        Vocabulary { words }
    }

    /// Whether the vocabulary knows this word.
    pub fn contains(&self, w: &String) -> (r: bool)
        ensures
            r == self@.contains(w@),
    {
        let mut i: usize = 0;
        while i < self.words.len()
            invariant
                i <= self.words.len(),
                forall|j: int| 0 <= j < i ==> self.words@[j]@ != w@,
            decreases self.words.len() - i,
        {
            if self.words[i].eq(w) {
                return true;
            }
            i = i + 1;
        }
        false
    }
}

/// The review text with every occurrence of `<br` struck out, scanning left
/// to right, the way likely line-break tags are removed before cleaning.
pub open spec fn strip_br(s: Seq<char>) -> Seq<char>
    decreases s.len(),
{
    if s.len() >= 3 && s[0] == '<' && s[1] == 'b' && s[2] == 'r' {
        strip_br(s.skip(3))
    } else if s.len() == 0 {
        Seq::<char>::empty()
    } else {
        seq![s[0]] + strip_br(s.skip(1))
    }
}

/// What one finished word contributes to the cleaned review: its lowercase
/// form followed by one space when the vocabulary knows that form, nothing
/// otherwise.
pub open spec fn flush_word(cur: Seq<char>, vocab: Set<Seq<char>>) -> Seq<char> {
    if cur.len() > 0 && vocab.contains(lower_of(cur)) {
        lower_of(cur) + seq![' ']
    } else {
        Seq::<char>::empty()
    }
}

/// The cleaned form of the remaining characters, with `cur` the word begun
/// so far.  An alphanumeric character extends the current word, and so does
/// an apostrophe once a word has begun; any other character ends the word,
/// which is kept exactly as `flush_word` says.
pub open spec fn clean_rec(s: Seq<char>, cur: Seq<char>, vocab: Set<Seq<char>>) -> Seq<char>
    decreases s.len(),
{
    if s.len() == 0 {
        flush_word(cur, vocab)
    } else if is_alnum_char(s[0]) || (s[0] == '\'' && cur.len() > 0) {
        clean_rec(s.skip(1), cur.push(s[0]), vocab)
    } else {
        flush_word(cur, vocab) + clean_rec(s.skip(1), Seq::<char>::empty(), vocab)
    }
}

/// The cleaned form of a raw review: rid of `<br` tag openings, split into
/// words, each word lowercased and kept, with a trailing space, exactly when
/// the vocabulary knows its lowercase form.
pub open spec fn clean_spec(s: Seq<char>, vocab: Set<Seq<char>>) -> Seq<char> {
    clean_rec(strip_br(s), Seq::<char>::empty(), vocab)
}

/// Strike every `<br` from the characters, scanning left to right.
fn strip_br_chars(v: &Vec<char>) -> (r: Vec<char>)
    ensures
        r@ == strip_br(v@),
{
    let mut out: Vec<char> = Vec::new();
    let mut i: usize = 0;
    proof {
        assert(v@.skip(0) =~= v@);
        assert(out@ + strip_br(v@) =~= strip_br(v@));
    }
    while i < v.len()
        invariant
            i <= v@.len(),
            strip_br(v@) == out@ + strip_br(v@.skip(i as int)),
        decreases v@.len() - i,
    {
        let ghost prev_out = out@;
        proof {
            assert(v@.skip(i as int)[0] == v@[i as int]);
        }
        if v.len() - i > 2 && v[i] == '<' && v[i + 1] == 'b' && v[i + 2] == 'r' {
            proof {
                assert(v@.skip(i as int)[1] == v@[i as int + 1]);
                assert(v@.skip(i as int)[2] == v@[i as int + 2]);
                assert(v@.skip(i as int).skip(3) =~= v@.skip(i as int + 3));
            }
            i = i + 3;
        } else {
            let c = v[i];
            out.push(c);
            proof {
                assert(v@.skip(i as int).skip(1) =~= v@.skip(i as int + 1));
                assert(strip_br(v@.skip(i as int)) == seq![v@[i as int]] + strip_br(
                    v@.skip(i as int + 1),
                ));
                assert(out@ + strip_br(v@.skip(i as int + 1)) =~= prev_out + strip_br(
                    v@.skip(i as int),
                )) by {
                    assert(out@ =~= prev_out + seq![v@[i as int]]);
                }
            }
            i = i + 1;
        }
    }
    proof {
        assert(v@.skip(v@.len() as int) =~= Seq::<char>::empty());
        assert(strip_br(Seq::<char>::empty()) == Seq::<char>::empty());
        assert(out@ + Seq::<char>::empty() =~= out@);
    }
    out
}

/// Append what the finished word `cur` contributes to the cleaned review.
fn flush_into(out: &mut String, cur: &Vec<char>, vocab: &Vocabulary)
    ensures
        final (out)@ == old(out)@ + flush_word(cur@, vocab@),
{
    let ghost prefix = out@;
    if cur.len() > 0 {
        let word = string_from_chars(cur);
        let lower = lowercase(&word);
        if vocab.contains(&lower) {
            out.append(lower.as_str());
            out.append(" ");
            proof {
                reveal_strlit(" ");
                assert(" "@ =~= seq![' ']);
                assert(out@ =~= prefix + (lower_of(cur@) + seq![' ']));
            }
        } else {
            proof {
                assert(out@ =~= prefix + Seq::<char>::empty());
            }
        }
    } else {
        proof {
            assert(out@ =~= prefix + Seq::<char>::empty());
        }
    }
}

/// Clean a raw review against the vocabulary: strike `<br` tag openings,
/// split the text into words of alphanumeric characters (with apostrophes
/// allowed inside a word), lowercase each word, and keep, each with one
/// trailing space, exactly the words whose lowercase form the vocabulary
/// knows.
pub fn clean_review(review: &str, vocab: &Vocabulary) -> (r: String)
    ensures
        r@ == clean_spec(review@, vocab@),
{
    let chars = chars_vec(review);
    let stripped = strip_br_chars(&chars);
    let mut out = String::new();
    let mut cur: Vec<char> = Vec::new();
    let mut i: usize = 0;
    proof {
        assert(stripped@.skip(0) =~= stripped@);
        assert(out@ + clean_rec(stripped@, cur@, vocab@) =~= clean_rec(stripped@, cur@, vocab@));
    }
    while i < stripped.len()
        invariant
            i <= stripped@.len(),
            clean_rec(stripped@, Seq::<char>::empty(), vocab@) == out@ + clean_rec(
                stripped@.skip(i as int),
                cur@,
                vocab@,
            ),
        decreases stripped@.len() - i,
    {
        let ghost prev_out = out@;
        let ghost prev_cur = cur@;
        proof {
            assert(stripped@.skip(i as int)[0] == stripped@[i as int]);
            assert(stripped@.skip(i as int).skip(1) =~= stripped@.skip(i as int + 1));
        }
        let c = stripped[i];
        if char_is_alphanumeric(c) || (c == '\'' && cur.len() > 0) {
            cur.push(c);
        } else {
            flush_into(&mut out, &cur, vocab);
            cur = Vec::new();
            proof {
                assert(out@ + clean_rec(stripped@.skip(i as int + 1), cur@, vocab@) =~= prev_out
                    + clean_rec(stripped@.skip(i as int), prev_cur, vocab@));
            }
        }
        i = i + 1;
    }
    proof {
        assert(stripped@.skip(stripped@.len() as int) =~= Seq::<char>::empty());
    }
    flush_into(&mut out, &cur, vocab);
    out
}

/// The character sequences of a list of words, in order.
pub open spec fn views_of(ws: Seq<String>) -> Seq<Seq<char>> {
    ws.map_values(|w: String| w@)
}

/// The words of the remaining characters, with `cur` the word begun so far:
/// maximal runs of non-whitespace characters, in order.
pub open spec fn split_ws_rec(s: Seq<char>, cur: Seq<char>) -> Seq<Seq<char>>
    decreases s.len(),
{
    if s.len() == 0 {
        if cur.len() > 0 {
            seq![cur]
        } else {
            Seq::<Seq<char>>::empty()
        }
    } else if is_space_char(s[0]) {
        if cur.len() > 0 {
            seq![cur] + split_ws_rec(s.skip(1), Seq::<char>::empty())
        } else {
            split_ws_rec(s.skip(1), Seq::<char>::empty())
        }
    } else {
        split_ws_rec(s.skip(1), cur.push(s[0]))
    }
}

/// The words of a text: maximal runs of non-whitespace characters, in order.
pub open spec fn split_ws(s: Seq<char>) -> Seq<Seq<char>> {
    split_ws_rec(s, Seq::<char>::empty())
}

/// The words of a text padded to exactly `review_size` entries: its first
/// words, in order, and empty words after them when the text runs short.
pub open spec fn pad_spec(s: Seq<char>, review_size: int) -> Seq<Seq<char>> {
    Seq::new(
        review_size as nat,
        |i: int|
            if i < split_ws(s).len() {
                split_ws(s)[i]
            } else {
                Seq::<char>::empty()
            },
    )
}

/// Split a text into its whitespace-separated words.
fn split_words(chars: &Vec<char>) -> (r: Vec<String>)
    ensures
        views_of(r@) == split_ws(chars@),
{
    let mut words: Vec<String> = Vec::new();
    let mut cur: Vec<char> = Vec::new();
    let mut i: usize = 0;
    proof {
        assert(chars@.skip(0) =~= chars@);
        assert(views_of(words@) + split_ws(chars@) =~= split_ws(chars@));
    }
    while i < chars.len()
        invariant
            i <= chars@.len(),
            split_ws(chars@) == views_of(words@) + split_ws_rec(chars@.skip(i as int), cur@),
        decreases chars@.len() - i,
    {
        let ghost prev_words = words@;
        let ghost prev_cur = cur@;
        proof {
            assert(chars@.skip(i as int)[0] == chars@[i as int]);
            assert(chars@.skip(i as int).skip(1) =~= chars@.skip(i as int + 1));
        }
        let c = chars[i];
        if char_is_whitespace(c) {
            if cur.len() > 0 {
                let w = string_from_chars(&cur);
                words.push(w);
                cur = Vec::new();
                proof {
                    assert(views_of(words@) =~= views_of(prev_words) + seq![prev_cur]);
                    assert(views_of(words@) + split_ws_rec(chars@.skip(i as int + 1), cur@)
                        =~= views_of(prev_words) + split_ws_rec(chars@.skip(i as int), prev_cur));
                    assert(split_ws(chars@) == views_of(words@) + split_ws_rec(
                        chars@.skip(i as int + 1),
                        cur@,
                    ));
                }
            } else {
                proof {
                    assert(cur@ =~= Seq::<char>::empty());
                    assert(split_ws(chars@) == views_of(words@) + split_ws_rec(
                        chars@.skip(i as int + 1),
                        cur@,
                    ));
                }
            }
        } else {
            cur.push(c);
            proof {
                assert(cur@ == prev_cur.push(chars@[i as int]));
                assert(split_ws_rec(chars@.skip(i as int), prev_cur) == split_ws_rec(
                    chars@.skip(i as int + 1),
                    cur@,
                ));
                assert(split_ws(chars@) == views_of(words@) + split_ws_rec(
                    chars@.skip(i as int + 1),
                    cur@,
                ));
            }
        }
        i = i + 1;
    }
    proof {
        assert(chars@.skip(chars@.len() as int) =~= Seq::<char>::empty());
    }
    if cur.len() > 0 {
        let ghost prev_words = words@;
        let w = string_from_chars(&cur);
        words.push(w);
        proof {
            assert(views_of(words@) =~= views_of(prev_words) + seq![cur@]);
        }
    } else {
        proof {
            assert(views_of(words@) + Seq::<Seq<char>>::empty() =~= views_of(words@));
        }
    }
    words
}

/// Pad a review to exactly `review_size` words: its first words, in order,
/// and empty words after them when the text runs short.
pub fn pad_review(review: &str, review_size: usize) -> (r: Vec<String>)
    ensures
        r@.len() == review_size,
        forall|i: int|
            0 <= i < review_size ==> r@[i]@ == pad_spec(review@, review_size as int)[i],
{
    let chars = chars_vec(review);
    let words = split_words(&chars);
    let mut r: Vec<String> = Vec::new();
    let mut j: usize = 0;
    while j < review_size
        invariant
            j <= review_size,
            r@.len() == j,
            views_of(words@) == split_ws(chars@),
            chars@ == review@,
            forall|k: int|
                0 <= k < j ==> r@[k]@ == pad_spec(review@, review_size as int)[k],
        decreases review_size - j,
    {
        if j < words.len() {
            let w = words[j].clone();
            r.push(w);
        } else {
            r.push(String::new());
        }
        j = j + 1;
    }
    r
}

/// The concatenation of a list of words, each followed by one space.
pub open spec fn joined_words(ws: Seq<Seq<char>>) -> Seq<char>
    decreases ws.len(),
{
    if ws.len() == 0 {
        Seq::<char>::empty()
    } else {
        ws[0] + seq![' '] + joined_words(ws.skip(1))
    }
}

/// Joining distributes over concatenation of word lists.
proof fn lemma_joined_words_concat(a: Seq<Seq<char>>, b: Seq<Seq<char>>)
    ensures
        joined_words(a + b) == joined_words(a) + joined_words(b),
    decreases a.len(),
{
    if a.len() == 0 {
        assert(a + b =~= b);
        assert(joined_words(a) + joined_words(b) =~= joined_words(b));
    } else {
        lemma_joined_words_concat(a.skip(1), b);
        assert((a + b).skip(1) =~= a.skip(1) + b);
        assert((a + b)[0] == a[0]);
        assert(joined_words(a + b) == a[0] + seq![' '] + (joined_words(a.skip(1)) + joined_words(
            b,
        )));
        assert(a[0] + seq![' '] + (joined_words(a.skip(1)) + joined_words(b)) =~= (a[0] + seq![' ']
            + joined_words(a.skip(1))) + joined_words(b));
    }
}

/// The words that cleaning the remaining characters keeps, each a vocabulary
/// member, whose joined form is exactly the cleaned text.
proof fn lemma_clean_rec_vocab(s: Seq<char>, cur: Seq<char>, vocab: Set<Seq<char>>) -> (ws: Seq<
    Seq<char>,
>)
    ensures
        forall|k: int| 0 <= k < ws.len() ==> vocab.contains(ws[k]),
        clean_rec(s, cur, vocab) == joined_words(ws),
    decreases s.len(),
{
    if s.len() == 0 {
        if cur.len() > 0 && vocab.contains(lower_of(cur)) {
            let ws = seq![lower_of(cur)];
            assert(ws.skip(1) =~= Seq::<Seq<char>>::empty());
            assert(joined_words(Seq::<Seq<char>>::empty()) == Seq::<char>::empty());
            assert(joined_words(ws) =~= lower_of(cur) + seq![' ']);
            ws
        } else {
            let ws = Seq::<Seq<char>>::empty();
            assert(clean_rec(s, cur, vocab) =~= joined_words(ws));
            ws
        }
    } else if is_alnum_char(s[0]) || (s[0] == '\'' && cur.len() > 0) {
        lemma_clean_rec_vocab(s.skip(1), cur.push(s[0]), vocab)
    } else {
        let rest = lemma_clean_rec_vocab(s.skip(1), Seq::<char>::empty(), vocab);
        if cur.len() > 0 && vocab.contains(lower_of(cur)) {
            let ws = seq![lower_of(cur)] + rest;
            lemma_joined_words_concat(seq![lower_of(cur)], rest);
            assert(seq![lower_of(cur)].skip(1) =~= Seq::<Seq<char>>::empty());
            assert(joined_words(Seq::<Seq<char>>::empty()) == Seq::<char>::empty());
            assert(joined_words(seq![lower_of(cur)]) =~= lower_of(cur) + seq![' ']);
            assert(clean_rec(s, cur, vocab) == flush_word(cur, vocab) + joined_words(rest));
            assert forall|k: int| 0 <= k < ws.len() implies vocab.contains(ws[k]) by {
                if k == 0 {
                    assert(ws[0] == lower_of(cur));
                } else {
                    assert(ws[k] == rest[k - 1]);
                }
            }
            ws
        } else {
            assert(flush_word(cur, vocab) + joined_words(rest) =~= joined_words(rest));
            rest
        }
    }
}

/// Law of the cleaning pipeline: the cleaned review is exactly a sequence of
/// vocabulary words, each followed by one space, so every word it hands on
/// is guaranteed present in the embedding table.
pub proof fn lemma_clean_keeps_vocab_words(s: Seq<char>, vocab: Set<Seq<char>>) -> (ws: Seq<
    Seq<char>,
>)
    ensures
        forall|k: int| 0 <= k < ws.len() ==> vocab.contains(ws[k]),
        clean_spec(s, vocab) == joined_words(ws),
{
    lemma_clean_rec_vocab(strip_br(s), Seq::<char>::empty(), vocab)
}

/// Every word the whitespace split produces is nonempty and free of
/// whitespace, provided the word begun so far is.
proof fn lemma_split_ws_rec_words(s: Seq<char>, cur: Seq<char>)
    requires
        forall|i: int| 0 <= i < cur.len() ==> !is_space_char(cur[i]),
    ensures
        forall|k: int|
            0 <= k < split_ws_rec(s, cur).len() ==> split_ws_rec(s, cur)[k].len() > 0 && (forall|
                i: int,
            | 0 <= i < split_ws_rec(s, cur)[k].len() ==> !is_space_char(split_ws_rec(s, cur)[k][i])),
    decreases s.len(),
{
    if s.len() == 0 {
        if cur.len() > 0 {
            assert(split_ws_rec(s, cur) == seq![cur]);
            assert(split_ws_rec(s, cur)[0] == cur);
        }
    } else if is_space_char(s[0]) {
        lemma_split_ws_rec_words(s.skip(1), Seq::<char>::empty());
        if cur.len() > 0 {
            let rest = split_ws_rec(s.skip(1), Seq::<char>::empty());
            assert forall|k: int| 0 <= k < split_ws_rec(s, cur).len() implies split_ws_rec(s, cur)[k].len()
                > 0 && (forall|i: int|
                0 <= i < split_ws_rec(s, cur)[k].len() ==> !is_space_char(
                    split_ws_rec(s, cur)[k][i],
                )) by {
                if k == 0 {
                    assert(split_ws_rec(s, cur)[0] == cur);
                } else {
                    assert(split_ws_rec(s, cur)[k] == rest[k - 1]);
                }
            }
        }
    } else {
        assert(forall|i: int|
            0 <= i < cur.push(s[0]).len() ==> !is_space_char(cur.push(s[0])[i]));
        lemma_split_ws_rec_words(s.skip(1), cur.push(s[0]));
        assert(split_ws_rec(s, cur) == split_ws_rec(s.skip(1), cur.push(s[0])));
        assert forall|k: int| 0 <= k < split_ws_rec(s, cur).len() implies split_ws_rec(s, cur)[k].len()
            > 0 && (forall|i: int|
            0 <= i < split_ws_rec(s, cur)[k].len() ==> !is_space_char(
                split_ws_rec(s, cur)[k][i],
            )) by {
            assert(split_ws_rec(s, cur)[k] == split_ws_rec(s.skip(1), cur.push(s[0]))[k]);
        }
    }
}

/// Law of the padding pipeline: every token it hands the model is either the
/// blank padding token or a nonempty word free of whitespace, so the blank
/// token is the one token that padding can introduce.
pub proof fn lemma_padded_token_is_word_or_blank(s: Seq<char>, review_size: int, k: int)
    requires
        0 <= k < review_size,
    ensures
        pad_spec(s, review_size)[k].len() == 0 || (forall|i: int|
            0 <= i < pad_spec(s, review_size)[k].len() ==> !is_space_char(
                pad_spec(s, review_size)[k][i],
            )),
{
    lemma_split_ws_rec_words(s, Seq::<char>::empty());
}

/// One labelled training example: the padded token sequence of a review and
/// whether its sentiment was the positive one.
pub struct Review {
    pub review: Vec<String>,
    pub positive: bool,
}

/// Turn one raw dataset record into a training example: clean the review
/// text against the vocabulary, pad the cleaned text to `review_size`
/// words, and read the sentiment column as positive exactly when it says
/// "positive".
pub fn prepare_review(text: &str, sentiment: &String, review_size: usize, vocab: &Vocabulary) -> (r:
    Review)
    ensures
        r.review@.len() == review_size,
        forall|i: int|
            0 <= i < review_size ==> r.review@[i]@ == pad_spec(
                clean_spec(text@, vocab@),
                review_size as int,
            )[i],
        r.positive == (sentiment@ == "positive"@),
{
    let cleaned = clean_review(text, vocab);
    let review = pad_review(cleaned.as_str(), review_size);
    let positive = sentiment.eq(&String::from_str("positive"));
    Review { review, positive }
}

} // verus!
