use vstd::prelude::*;
use crate::bitmap::Bitmap;
use crate::bitmap::is_crop;
use crate::bitmap::same_bitmap;

verus! {

/// How many letters an alphabet strip holds, `A` to `Z` side by side.
pub const STRIP_LETTERS: u32 = 26;

/// The letter at `i` counting from `A`.
pub open spec fn letter(i: int) -> char {
    (65 + i) as u8 as char
}

/// Whether the letter `c` has an image in `map`.
pub open spec fn has_letter(map: Seq<(char, Bitmap)>, c: char) -> bool {
    exists|i: int| 0 <= i < map.len() && #[trigger] map[i].0 == c
}

/// Whether `i` is the first entry of `map` for the letter `c`.
pub open spec fn first_for(map: Seq<(char, Bitmap)>, c: char, i: int) -> bool {
    0 <= i < map.len() && map[i].0 == c && forall|j: int| 0 <= j < i ==> #[trigger] map[j].0 != c
}

/// The first entry of `map` for the letter `c`.
pub open spec fn letter_index(map: Seq<(char, Bitmap)>, c: char) -> int {
    choose|i: int| first_for(map, c, i)
}

/// The entries of `map` for the letters of `s` that have one, in order.
pub open spec fn sentence_indices(s: Seq<char>, map: Seq<(char, Bitmap)>) -> Seq<int>
    decreases s.len(),
{
    if s.len() == 0 {
        Seq::empty()
    } else if has_letter(map, s.last()) {
        sentence_indices(s.drop_last(), map).push(letter_index(map, s.last()))
    } else {
        sentence_indices(s.drop_last(), map)
    }
}

/// Cuts a strip of equally wide letters into one image per letter, `A` to
/// `Z`: letter `i` starts at `i` times a twenty-sixth of the width.
pub fn split_alphabet_image(alphabet_image: &Bitmap) -> (r: Vec<(char, Bitmap)>)
    requires
        alphabet_image.wf(),
    ensures
        r@.len() == STRIP_LETTERS,
        forall|i: int| 0 <= i < STRIP_LETTERS ==> (#[trigger] r@[i]).0 == letter(i) && is_crop(
            *alphabet_image, (i * (alphabet_image.width / STRIP_LETTERS) as int) as u32, 0,
            alphabet_image.width / STRIP_LETTERS, alphabet_image.height, r@[i].1),
{
    let width_per_char: u32 = alphabet_image.width / STRIP_LETTERS;
    let mut r: Vec<(char, Bitmap)> = Vec::new();
    let mut i: u32 = 0;
    while i < STRIP_LETTERS
        invariant
            alphabet_image.wf(),
            width_per_char == alphabet_image.width / STRIP_LETTERS,
            i <= STRIP_LETTERS,
            r@.len() == i,
            forall|j: int| 0 <= j < i ==> (#[trigger] r@[j]).0 == letter(j) && is_crop(
                *alphabet_image, (j * (alphabet_image.width / STRIP_LETTERS) as int) as u32, 0,
                alphabet_image.width / STRIP_LETTERS, alphabet_image.height, r@[j].1),
        decreases STRIP_LETTERS - i,
    {
        assert(i * width_per_char <= 25 * width_per_char <= alphabet_image.width) by (nonlinear_arith)
            requires i < 26, width_per_char == alphabet_image.width / 26;
        let x: u32 = i * width_per_char;
        let piece = alphabet_image.crop(x, 0, width_per_char, alphabet_image.height);
        let c: char = (65u8 + i as u8) as char;
        r.push((c, piece));
        i = i + 1;
    }
    r
}

/// The image of each letter of `sentence` that `map` has, in order; letters
/// without an image are skipped.
pub fn get_sentence_images(sentence: &Vec<char>, map: &Vec<(char, Bitmap)>) -> (r: Vec<Bitmap>)
    ensures
        r@.len() == sentence_indices(sentence@, map@).len(),
        forall|k: int| 0 <= k < r@.len() ==> same_bitmap(#[trigger] r@[k], map@[sentence_indices(sentence@, map@)[k]].1),
{
    let mut r: Vec<Bitmap> = Vec::new();
    let n: usize = sentence.len();
    let mut k: usize = 0;
    while k < n
        invariant
            n == sentence@.len(),
            k <= n,
            r@.len() == sentence_indices(sentence@.subrange(0, k as int), map@).len(),
            forall|q: int| 0 <= q < r@.len() ==> same_bitmap(#[trigger] r@[q],
                map@[sentence_indices(sentence@.subrange(0, k as int), map@)[q]].1),
            forall|q: int| 0 <= q < r@.len() ==> 0 <= #[trigger] sentence_indices(sentence@.subrange(0, k as int), map@)[q] < map@.len(),
        decreases n - k,
    {
        let c: char = sentence[k];
        let ghost prefix = sentence@.subrange(0, k as int);
        assert(sentence@.subrange(0, k + 1).drop_last() =~= prefix);
        assert(sentence@.subrange(0, k + 1).last() == c);
        match find_letter(map, c) {
            Some(i) => {
                proof {
                    assert(has_letter(map@, c));
                    let chosen = letter_index(map@, c);
                    assert(first_for(map@, c, chosen));
                    if chosen < i {
                        assert(map@[chosen].0 != c);
                    } else if i < chosen {
                        assert(map@[i as int].0 != c);
                    }
                }
                r.push(map[i].1.copy());
            },
            None => {},
        }
        k = k + 1;
    }
    assert(sentence@.subrange(0, n as int) =~= sentence@);
    r
}

/// The first entry of `map` for the letter `c`, if any.
fn find_letter(map: &Vec<(char, Bitmap)>, c: char) -> (r: Option<usize>)
    ensures
        r.is_some() <==> has_letter(map@, c),
        r matches Some(i) ==> first_for(map@, c, i as int),
{
    let n: usize = map.len();
    let mut i: usize = 0;
    while i < n
        invariant
            n == map@.len(),
            i <= n,
            forall|j: int| 0 <= j < i ==> #[trigger] map@[j].0 != c,
        decreases n - i,
    {
        if map[i].0 == c {
            return Some(i);
        }
        i = i + 1;
    }
    None
}

} // verus!
