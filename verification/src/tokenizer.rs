//! Character-level tokenizer over a fixed vocabulary.
//!
//! Every character of the vocabulary gets the id of its position in it; any
//! other character maps to one catch-all id that decoding drops again.
use std::collections::HashMap;
use vstd::prelude::*;

verus! {

/// The characters the tokenizer knows, in the order of their ids.
const CHARS: &'static str = "\n abcdefghijklmnopqrstuvwxyzABCDEFGHIJKLMNOPQRSTUVWXYZ!\"#$%&'()*+,-./:;<=>?@[\\]^_`{|}~0123456789äüöÄÖÜß";

/// Number of characters in the vocabulary; it is also the catch-all id.
pub const KNOWN_CHARS: usize = 103;

/// The character that carries id `id` (meaningful for `0 <= id < 103`).
pub open spec fn vocab_char(id: int) -> char {
    if id == 0 {
        '\n'
    } else if id == 1 {
        ' '
    } else if id == 2 {
        'a'
    } else if id == 3 {
        'b'
    } else if id == 4 {
        'c'
    } else if id == 5 {
        'd'
    } else if id == 6 {
        'e'
    } else if id == 7 {
        'f'
    } else if id == 8 {
        'g'
    } else if id == 9 {
        'h'
    } else if id == 10 {
        'i'
    } else if id == 11 {
        'j'
    } else if id == 12 {
        'k'
    } else if id == 13 {
        'l'
    } else if id == 14 {
        'm'
    } else if id == 15 {
        'n'
    } else if id == 16 {
        'o'
    } else if id == 17 {
        'p'
    } else if id == 18 {
        'q'
    } else if id == 19 {
        'r'
    } else if id == 20 {
        's'
    } else if id == 21 {
        't'
    } else if id == 22 {
        'u'
    } else if id == 23 {
        'v'
    } else if id == 24 {
        'w'
    } else if id == 25 {
        'x'
    } else if id == 26 {
        'y'
    } else if id == 27 {
        'z'
    } else if id == 28 {
        'A'
    } else if id == 29 {
        'B'
    } else if id == 30 {
        'C'
    } else if id == 31 {
        'D'
    } else if id == 32 {
        'E'
    } else if id == 33 {
        'F'
    } else if id == 34 {
        'G'
    } else if id == 35 {
        'H'
    } else if id == 36 {
        'I'
    } else if id == 37 {
        'J'
    } else if id == 38 {
        'K'
    } else if id == 39 {
        'L'
    } else if id == 40 {
        'M'
    } else if id == 41 {
        'N'
    } else if id == 42 {
        'O'
    } else if id == 43 {
        'P'
    } else if id == 44 {
        'Q'
    } else if id == 45 {
        'R'
    } else if id == 46 {
        'S'
    } else if id == 47 {
        'T'
    } else if id == 48 {
        'U'
    } else if id == 49 {
        'V'
    } else if id == 50 {
        'W'
    } else if id == 51 {
        'X'
    } else if id == 52 {
        'Y'
    } else if id == 53 {
        'Z'
    } else if id == 54 {
        '!'
    } else if id == 55 {
        '"'
    } else if id == 56 {
        '#'
    } else if id == 57 {
        '$'
    } else if id == 58 {
        '%'
    } else if id == 59 {
        '&'
    } else if id == 60 {
        '\''
    } else if id == 61 {
        '('
    } else if id == 62 {
        ')'
    } else if id == 63 {
        '*'
    } else if id == 64 {
        '+'
    } else if id == 65 {
        ','
    } else if id == 66 {
        '-'
    } else if id == 67 {
        '.'
    } else if id == 68 {
        '/'
    } else if id == 69 {
        ':'
    } else if id == 70 {
        ';'
    } else if id == 71 {
        '<'
    } else if id == 72 {
        '='
    } else if id == 73 {
        '>'
    } else if id == 74 {
        '?'
    } else if id == 75 {
        '@'
    } else if id == 76 {
        '['
    } else if id == 77 {
        '\\'
    } else if id == 78 {
        ']'
    } else if id == 79 {
        '^'
    } else if id == 80 {
        '_'
    } else if id == 81 {
        '`'
    } else if id == 82 {
        '{'
    } else if id == 83 {
        '|'
    } else if id == 84 {
        '}'
    } else if id == 85 {
        '~'
    } else if id == 86 {
        '0'
    } else if id == 87 {
        '1'
    } else if id == 88 {
        '2'
    } else if id == 89 {
        '3'
    } else if id == 90 {
        '4'
    } else if id == 91 {
        '5'
    } else if id == 92 {
        '6'
    } else if id == 93 {
        '7'
    } else if id == 94 {
        '8'
    } else if id == 95 {
        '9'
    } else if id == 96 {
        'ä'
    } else if id == 97 {
        'ü'
    } else if id == 98 {
        'ö'
    } else if id == 99 {
        'Ä'
    } else if id == 100 {
        'Ö'
    } else if id == 101 {
        'Ü'
    } else if id == 102 {
        'ß'
    } else {
        '\0'
    }
}

/// The vocabulary in id order.
pub open spec fn vocabulary() -> Seq<char> {
    Seq::new(KNOWN_CHARS as nat, |i: int| vocab_char(i))
}

/// The id `encode` gives a character: its position in the vocabulary, or
/// the catch-all id `103` for a character outside of it.
pub open spec fn token_id(c: char) -> int {
    match c {
        '\n' => 0,
        ' ' => 1,
        'a' => 2,
        'b' => 3,
        'c' => 4,
        'd' => 5,
        'e' => 6,
        'f' => 7,
        'g' => 8,
        'h' => 9,
        'i' => 10,
        'j' => 11,
        'k' => 12,
        'l' => 13,
        'm' => 14,
        'n' => 15,
        'o' => 16,
        'p' => 17,
        'q' => 18,
        'r' => 19,
        's' => 20,
        't' => 21,
        'u' => 22,
        'v' => 23,
        'w' => 24,
        'x' => 25,
        'y' => 26,
        'z' => 27,
        'A' => 28,
        'B' => 29,
        'C' => 30,
        'D' => 31,
        'E' => 32,
        'F' => 33,
        'G' => 34,
        'H' => 35,
        'I' => 36,
        'J' => 37,
        'K' => 38,
        'L' => 39,
        'M' => 40,
        'N' => 41,
        'O' => 42,
        'P' => 43,
        'Q' => 44,
        'R' => 45,
        'S' => 46,
        'T' => 47,
        'U' => 48,
        'V' => 49,
        'W' => 50,
        'X' => 51,
        'Y' => 52,
        'Z' => 53,
        '!' => 54,
        '"' => 55,
        '#' => 56,
        '$' => 57,
        '%' => 58,
        '&' => 59,
        '\'' => 60,
        '(' => 61,
        ')' => 62,
        '*' => 63,
        '+' => 64,
        ',' => 65,
        '-' => 66,
        '.' => 67,
        '/' => 68,
        ':' => 69,
        ';' => 70,
        '<' => 71,
        '=' => 72,
        '>' => 73,
        '?' => 74,
        '@' => 75,
        '[' => 76,
        '\\' => 77,
        ']' => 78,
        '^' => 79,
        '_' => 80,
        '`' => 81,
        '{' => 82,
        '|' => 83,
        '}' => 84,
        '~' => 85,
        '0' => 86,
        '1' => 87,
        '2' => 88,
        '3' => 89,
        '4' => 90,
        '5' => 91,
        '6' => 92,
        '7' => 93,
        '8' => 94,
        '9' => 95,
        'ä' => 96,
        'ü' => 97,
        'ö' => 98,
        'Ä' => 99,
        'Ö' => 100,
        'Ü' => 101,
        'ß' => 102,
        _ => 103,
    }
}

/// Whether `c` belongs to the vocabulary.
pub open spec fn is_known(c: char) -> bool {
    token_id(c) < KNOWN_CHARS
}

/// Whether `id` names a character of the vocabulary.
pub open spec fn is_char_id(id: i32) -> bool {
    0 <= id < KNOWN_CHARS
}

/// The table from id to character that a tokenizer holds.
pub open spec fn vocabulary_table() -> Map<i32, char> {
    Map::new(|id: i32| is_char_id(id), |id: i32| vocab_char(id as int))
}

/// What `encode` returns: one id per character, in order.
pub open spec fn encode_spec(text: Seq<char>) -> Seq<i32> {
    text.map_values(|c: char| token_id(c) as i32)
}

/// What `decode` returns: the characters of the ids that name one, in order;
/// every other id is dropped.
pub open spec fn decode_spec(ids: Seq<i32>) -> Seq<char> {
    ids.filter(|id: i32| is_char_id(id)).map_values(|id: i32| vocab_char(id as int))
}

/// What `filter_known` returns: the known characters of `text`, in order.
pub open spec fn filter_known_spec(text: Seq<char>) -> Seq<char> {
    text.filter(|c: char| is_known(c))
}

/// Each id of the vocabulary belongs to a distinct known character.
pub proof fn lemma_vocab_char_id(id: int)
    requires
        0 <= id < KNOWN_CHARS,
    ensures
        token_id(vocab_char(id)) == id,
        is_known(vocab_char(id)),
{
}

/// A known character is the vocabulary character of its own id.
pub proof fn lemma_known_char(c: char)
    requires
        is_known(c),
    ensures
        vocab_char(token_id(c)) == c,
{
}

/// The character string of the vocabulary spells out `vocabulary()`.
proof fn lemma_chars_spell_vocabulary()
    ensures
        CHARS@ == vocabulary(),
{
    reveal_strlit("\n abcdefghijklmnopqrstuvwxyzABCDEFGHIJKLMNOPQRSTUVWXYZ!\"#$%&'()*+,-./:;<=>?@[\\]^_`{|}~0123456789äüöÄÖÜß");
    assert(CHARS@ =~= vocabulary());
}

/// `filter` on a sequence that grew by one element.
proof fn lemma_filter_push<A>(s: Seq<A>, x: A, pred: spec_fn(A) -> bool)
    ensures
        s.push(x).filter(pred) == (if pred(x) {
            s.filter(pred).push(x)
        } else {
            s.filter(pred)
        }),
{
    reveal(Seq::filter);
    assert(s.push(x).drop_last() =~= s);
}

/// `decode_spec` on ids that grew by one id.
proof fn lemma_decode_push(ids: Seq<i32>, id: i32)
    ensures
        decode_spec(ids.push(id)) == (if is_char_id(id) {
            decode_spec(ids).push(vocab_char(id as int))
        } else {
            decode_spec(ids)
        }),
{
    let pred = |i: i32| is_char_id(i);
    lemma_filter_push(ids, id, pred);
    if is_char_id(id) {
        assert(decode_spec(ids.push(id)) =~= decode_spec(ids).push(vocab_char(id as int)));
    } else {
        assert(decode_spec(ids.push(id)) =~= decode_spec(ids));
    }
}

/// A sequence whose elements all satisfy `pred` is its own filter.
proof fn lemma_filter_all<A>(s: Seq<A>, pred: spec_fn(A) -> bool)
    requires
        forall|i: int| 0 <= i < s.len() ==> pred(#[trigger] s[i]),
    ensures
        s.filter(pred) == s,
    decreases s.len(),
{
    if s.len() > 0 {
        let init = s.drop_last();
        lemma_filter_all(init, pred);
        lemma_filter_push(init, s.last(), pred);
        assert(init.push(s.last()) =~= s);
    } else {
        reveal(Seq::filter);
    }
}

/// Every id that `encode` produces is below the vocabulary size; it is the
/// catch-all id exactly where the character is unknown.
pub proof fn law_encode_ids_in_range(text: Seq<char>)
    ensures
        encode_spec(text).len() == text.len(),
        forall|i: int|
            0 <= i < text.len() ==> 0 <= #[trigger] encode_spec(text)[i] < KNOWN_CHARS + 1,
        forall|i: int|
            0 <= i < text.len() ==> (#[trigger] encode_spec(text)[i] == KNOWN_CHARS <==> !is_known(
                text[i],
            )),
{
}

/// Decoding what `encode` produced gives back the known characters of the
/// text, in order: the unknown ones are dropped.
pub proof fn law_decode_encode(text: Seq<char>)
    ensures
        decode_spec(encode_spec(text)) == filter_known_spec(text),
    decreases text.len(),
{
    if text.len() > 0 {
        let init = text.drop_last();
        let c = text.last();
        law_decode_encode(init);
        assert(init.push(c) =~= text);
        assert(encode_spec(text) =~= encode_spec(init).push(token_id(c) as i32));
        lemma_decode_push(encode_spec(init), token_id(c) as i32);
        lemma_filter_push(init, c, |x: char| is_known(x));
        if is_known(c) {
            lemma_known_char(c);
        }
    } else {
        reveal(Seq::filter);
        assert(decode_spec(encode_spec(text)) =~= text);
    }
}

/// Text made only of known characters survives `encode` then `decode`
/// unchanged.
pub proof fn law_decode_encode_known(text: Seq<char>)
    requires
        forall|i: int| 0 <= i < text.len() ==> is_known(#[trigger] text[i]),
    ensures
        decode_spec(encode_spec(text)) == text,
{
    law_decode_encode(text);
    lemma_filter_all(text, |c: char| is_known(c));
}

/// `filter_known` keeps only known characters, so applying it twice is the
/// same as applying it once.
pub proof fn law_filter_known_idempotent(text: Seq<char>)
    ensures
        forall|i: int|
            0 <= i < filter_known_spec(text).len() ==> is_known(
                #[trigger] filter_known_spec(text)[i],
            ),
        filter_known_spec(filter_known_spec(text)) == filter_known_spec(text),
{
    let pred = |c: char| is_known(c);
    assert forall|i: int| 0 <= i < filter_known_spec(text).len() implies is_known(
        #[trigger] filter_known_spec(text)[i],
    ) by {
        text.lemma_filter_pred(pred, i);
    }
    lemma_filter_all(filter_known_spec(text), pred);
}

/// Encoding what `decode` produced gives back the ids that name a
/// character, in order.
pub proof fn law_encode_decode(ids: Seq<i32>)
    ensures
        encode_spec(decode_spec(ids)) == ids.filter(|id: i32| is_char_id(id)),
    decreases ids.len(),
{
    let pred = |id: i32| is_char_id(id);
    if ids.len() > 0 {
        let init = ids.drop_last();
        let id = ids.last();
        law_encode_decode(init);
        assert(init.push(id) =~= ids);
        lemma_decode_push(init, id);
        lemma_filter_push(init, id, pred);
        if is_char_id(id) {
            lemma_vocab_char_id(id as int);
            assert(encode_spec(decode_spec(init).push(vocab_char(id as int))) =~= encode_spec(
                decode_spec(init),
            ).push(id));
        }
    } else {
        reveal(Seq::filter);
        assert(encode_spec(decode_spec(ids)) =~= ids.filter(pred));
    }
}

/// Appends one character to a `String`.
///
/// Trusted: calls `String::push`, whose documentation says it appends the
/// character to the end of the string.
#[verifier::external_body]
fn push_char(s: &mut String, c: char)
    ensures
        final(s)@ == old(s)@.push(c),
{
    s.push(c);
}

/// A way to turn text into token ids and back.
pub trait Tokenizer {
    /// The token ids of `text`, one per character.
    fn encode(&self, text: &str) -> Vec<i32>;

    /// The text that `ids` stand for.
    fn decode(&self, ids: &[i32]) -> String;

    /// How many distinct ids `encode` can produce.
    fn vocab_size(&self) -> usize;
}

/// Fixed-vocabulary character tokenizer. Any character outside of the
/// vocabulary maps to a catch-all id (`103`) that decoding drops, so it is
/// only useful as an "unknown" input token.
pub struct CharTokenizer {
    ttoi: HashMap<u32, i32>,
    itot: HashMap<i32, char>,
}

impl View for CharTokenizer {
    type V = Map<i32, char>;

    /// The table from id to character.
    closed spec fn view(&self) -> Map<i32, char> {
        self.itot@
    }
}

impl CharTokenizer {
    /// The character table is the vocabulary, and the code-point table is
    /// its inverse.
    #[verifier::type_invariant]
    closed spec fn wf(self) -> bool {
        &&& forall|i: int|
            0 <= i < KNOWN_CHARS ==> #[trigger] self.ttoi@.contains_key(vocab_char(i) as u32)
                && self.ttoi@[vocab_char(i) as u32] == i
        &&& forall|k: u32| #[trigger]
            self.ttoi@.contains_key(k) ==> 0 <= self.ttoi@[k] < KNOWN_CHARS && vocab_char(
                self.ttoi@[k] as int,
            ) as u32 == k
        &&& self.ttoi@.len() == KNOWN_CHARS
        &&& self.itot@ == vocabulary_table()
    }

    /// The id of `c` as the code-point table gives it.
    fn lookup(&self, c: char) -> (id: Option<i32>)
        ensures
            id == (if is_known(c) {
                Some(token_id(c) as i32)
            } else {
                None::<i32>
            }),
    {
        proof {
            use_type_invariant(self);
        }
        let key: u32 = c as u32;
        match self.ttoi.get(&key) {
            Some(id) => {
                proof {
                    lemma_vocab_char_id(*id as int);
                    assert(vocab_char(*id as int) == c);
                }
                Some(*id)
            },
            None => {
                proof {
                    if is_known(c) {
                        lemma_known_char(c);
                        assert(self.ttoi@.contains_key(vocab_char(token_id(c)) as u32));
                    }
                }
                None
            },
        }
    }

    /// Builds the tokenizer: id `i` is the `i`-th character of the vocabulary.
    pub fn new() -> (t: CharTokenizer)
        ensures
            t@ == vocabulary_table(),
    {
        let mut ttoi: HashMap<u32, i32> = HashMap::new();
        let mut itot: HashMap<i32, char> = HashMap::new();
        let mut id: i32 = 0;
        proof {
            lemma_chars_spell_vocabulary();
        }
        for c in it: CHARS.chars()
            invariant
                it.seq() == vocabulary(),
                id == it.index(),
                it.index() <= it.seq().len(),
                forall|i: int|
                    0 <= i < id ==> #[trigger] ttoi@.contains_key(vocab_char(i) as u32)
                        && ttoi@[vocab_char(i) as u32] == i,
                forall|k: u32| #[trigger]
                    ttoi@.contains_key(k) ==> 0 <= ttoi@[k] < id && vocab_char(ttoi@[k] as int)
                        as u32 == k,
                ttoi@.len() == id,
                ttoi@.dom().finite(),
                itot@ == Map::new(|i: i32| 0 <= i < id, |i: i32| vocab_char(i as int)),
        {
            let key: u32 = c as u32;
            proof {
                lemma_vocab_char_id(id as int);
                if ttoi@.contains_key(key) {
                    lemma_vocab_char_id(ttoi@[key] as int);
                }
            }
            ttoi.insert(key, id);
            itot.insert(id, c);
            id = id + 1;
            proof {
                assert(itot@ =~= Map::new(|i: i32| 0 <= i < id, |i: i32| vocab_char(i as int)));
            }
        }
        proof {
            assert(itot@ =~= vocabulary_table());
        }
        CharTokenizer { ttoi, itot }
    }

    /// Keeps only the characters this tokenizer knows, in order.
    pub fn filter_known(&self, text: &str) -> (out: String)
        ensures
            out@ == filter_known_spec(text@),
    {
        let mut out = String::new();
        for c in it: text.chars()
            invariant
                it.seq() == text@,
                it.index() <= it.seq().len(),
                out@ == filter_known_spec(text@.take(it.index() as int)),
        {
            proof {
                lemma_filter_push(text@.take(it.index() as int), c, |x: char| is_known(x));
                assert(text@.take(it.index() + 1) =~= text@.take(it.index() as int).push(c));
            }
            if self.lookup(c).is_some() {
                push_char(&mut out, c);
            }
        }
        proof {
            assert(text@.take(text@.len() as int) =~= text@);
        }
        out
    }
}

impl Default for CharTokenizer {
    fn default() -> (t: CharTokenizer)
        ensures
            t@ == vocabulary_table(),
    {
        Self::new()
    }
}

impl Tokenizer for CharTokenizer {
    fn encode(&self, text: &str) -> (ids: Vec<i32>)
        ensures
            ids@ == encode_spec(text@),
    {
        proof {
            use_type_invariant(self);
        }
        let unknown = self.ttoi.len() as i32;
        let mut ids: Vec<i32> = Vec::new();
        for c in it: text.chars()
            invariant
                it.seq() == text@,
                it.index() <= it.seq().len(),
                unknown == KNOWN_CHARS,
                ids.len() == it.index(),
                forall|j: int| 0 <= j < ids.len() ==> ids@[j] == token_id(text@[j]) as i32,
        {
            let id = match self.lookup(c) {
                Some(id) => id,
                None => unknown,
            };
            ids.push(id);
        }
        proof {
            assert(ids@ =~= encode_spec(text@));
        }
        ids
    }

    fn decode(&self, ids: &[i32]) -> (text: String)
        ensures
            text@ == decode_spec(ids@),
    {
        proof {
            use_type_invariant(self);
        }
        let mut text = String::new();
        let n = ids.len();
        for i in 0..n
            invariant
                n == ids@.len(),
                self.itot@ == vocabulary_table(),
                text@ == decode_spec(ids@.take(i as int)),
        {
            let id = ids[i];
            proof {
                lemma_decode_push(ids@.take(i as int), id);
                assert(ids@.take(i + 1) =~= ids@.take(i as int).push(id));
            }
            match self.itot.get(&id) {
                Some(c) => push_char(&mut text, *c),
                None => {},
            }
        }
        proof {
            assert(ids@.take(n as int) =~= ids@);
        }
        text
    }

    fn vocab_size(&self) -> (n: usize)
        ensures
            n == KNOWN_CHARS + 1,
    {
        proof {
            use_type_invariant(self);
        }
        // One more than the known characters, for the catch-all id.
        self.ttoi.len() + 1
    }
}

} // verus!
