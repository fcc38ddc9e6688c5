//! The measures of a video: what a probing tool reports, and the file that keeps them.

use crate::text::{
    decimal, decimal_reads_back, digit_value, is_white, lemma_decimal_digits, parse_number,
    push_decimal, read_digits, read_number, views, word_len, words, words_of, NumberError,
};
use vstd::prelude::*;
use vstd::string::StringExecFns;
use vstd::utf8::{decode_utf8, valid_utf8};

verus! {

/// The measures of a prepared video.
#[derive(Debug, Clone, Copy, PartialEq, Eq, Structural)]
pub struct VideoMeta {
    pub orig_width: usize,
    pub orig_height: usize,
    pub frame_width: usize,
    pub frame_height: usize,
}

/// The text of bytes that may not all be UTF-8.
pub uninterp spec fn lossy_text(bytes: Seq<u8>) -> Seq<char>;

/// `String::from_utf8_lossy`: the text of some bytes. Bytes that are UTF-8 are decoded; what
/// stands for others is left to the name.
#[verifier::external_body]
pub(crate) fn text_of_bytes(bytes: &[u8]) -> (r: String)
    ensures
        r@ == lossy_text(bytes@),
        valid_utf8(bytes@) ==> r@ == decode_utf8(bytes@),
{
    String::from_utf8_lossy(bytes).into_owned()
}

/// Why a text is no number, in words.
pub open spec fn number_message(e: NumberError) -> Seq<char> {
    match e {
        NumberError::Empty => "cannot parse integer from empty string"@,
        NumberError::InvalidDigit => "invalid digit found in string"@,
        NumberError::TooLarge => "number too large to fit in target type"@,
    }
}

/// The message for a measure that is no number.
pub open spec fn field_message(field: Seq<char>, e: NumberError) -> Seq<char> {
    "Invalid "@ + field + ": "@ + number_message(e)
}

/// The names of the measures, in the order in which they are kept.
pub open spec fn field_names() -> Seq<Seq<char>> {
    seq!["orig_width"@, "orig_height"@, "frame_width"@, "frame_height"@]
}

/// The measures that a text keeps, or the message for the first of them that is no number.
pub open spec fn meta_of(text: Seq<char>) -> Result<VideoMeta, Seq<char>> {
    let w = words(text);
    if w.len() < 4 {
        Err("Invalid meta.txt. Re-run: bad-apple --force <URL>"@)
    } else {
        match (read_number(w[0]), read_number(w[1]), read_number(w[2]), read_number(w[3])) {
            (Err(e), _, _, _) => Err(field_message(field_names()[0], e)),
            (_, Err(e), _, _) => Err(field_message(field_names()[1], e)),
            (_, _, Err(e), _) => Err(field_message(field_names()[2], e)),
            (_, _, _, Err(e)) => Err(field_message(field_names()[3], e)),
            (Ok(a), Ok(b), Ok(c), Ok(d)) => Ok(
                VideoMeta {
                    orig_width: a as usize,
                    orig_height: b as usize,
                    frame_width: c as usize,
                    frame_height: d as usize,
                },
            ),
        }
    }
}

/// The measures as they are kept: four numbers, with a space between.
pub open spec fn kept_text(meta: VideoMeta) -> Seq<char> {
    decimal(meta.orig_width as nat) + seq![' '] + decimal(meta.orig_height as nat) + seq![' ']
        + decimal(meta.frame_width as nat) + seq![' '] + decimal(meta.frame_height as nat)
}

fn field_error(field: &str, e: NumberError) -> (r: String)
    ensures
        r@ == field_message(field@, e),
{
    let mut r = String::new();
    r.append("Invalid ");
    r.append(field);
    r.append(": ");
    match e {
        NumberError::Empty => r.append("cannot parse integer from empty string"),
        NumberError::InvalidDigit => r.append("invalid digit found in string"),
        NumberError::TooLarge => r.append("number too large to fit in target type"),
    }
    assert(r@ =~= field_message(field@, e));
    r
}

/// The measures that a text keeps.
pub fn load_meta(text: &str) -> (r: Result<VideoMeta, String>)
    ensures
        match r {
            Ok(meta) => meta_of(text@) == Ok::<VideoMeta, Seq<char>>(meta),
            Err(message) => meta_of(text@) == Err::<VideoMeta, Seq<char>>(message@),
        },
{
    let parts = words_of(text);
    assert(views(parts@).len() == parts@.len());
    assert(forall|i: int| 0 <= i < parts@.len() ==> views(parts@)[i] == #[trigger] parts@[i]@);
    if parts.len() < 4 {
        return Err("Invalid meta.txt. Re-run: bad-apple --force <URL>".to_owned());
    }
    let orig_width = match parse_number(&parts[0]) {
        Ok(n) => n,
        Err(e) => return Err(field_error("orig_width", e)),
    };
    let orig_height = match parse_number(&parts[1]) {
        Ok(n) => n,
        Err(e) => return Err(field_error("orig_height", e)),
    };
    let frame_width = match parse_number(&parts[2]) {
        Ok(n) => n,
        Err(e) => return Err(field_error("frame_width", e)),
    };
    let frame_height = match parse_number(&parts[3]) {
        Ok(n) => n,
        Err(e) => return Err(field_error("frame_height", e)),
    };
    Ok(VideoMeta { orig_width, orig_height, frame_width, frame_height })
}

/// The measures as they are kept.
pub fn meta_text(meta: &VideoMeta) -> (r: String)
    ensures
        r@ == kept_text(*meta),
        r@ == decimal(meta.orig_width as nat) + seq![' '] + decimal(meta.orig_height as nat) + seq![
            ' ',
        ] + decimal(meta.frame_width as nat) + seq![' '] + decimal(meta.frame_height as nat),
{
    let mut r = String::new();
    push_decimal(&mut r, meta.orig_width);
    r.push(' ');
    push_decimal(&mut r, meta.orig_height);
    r.push(' ');
    push_decimal(&mut r, meta.frame_width);
    r.push(' ');
    push_decimal(&mut r, meta.frame_height);
    assert(r@ =~= kept_text(*meta));
    r
}

/// Whether a text is one word.
spec fn is_word(s: Seq<char>) -> bool {
    s.len() > 0 && forall|i: int| 0 <= i < s.len() ==> !is_white(#[trigger] s[i])
}

proof fn lemma_word_len_of(word: Seq<char>, rest: Seq<char>)
    requires
        forall|i: int| 0 <= i < word.len() ==> !is_white(#[trigger] word[i]),
        rest.len() == 0 || is_white(rest[0]),
    ensures
        word_len(word + rest) == word.len(),
    decreases word.len(),
{
    let s = word + rest;
    if word.len() == 0 {
        assert(s =~= rest);
    } else {
        assert(s[0] == word[0]);
        lemma_word_len_of(word.drop_first(), rest);
        assert(s.drop_first() =~= word.drop_first() + rest);
    }
}

proof fn lemma_first_word(word: Seq<char>, rest: Seq<char>)
    requires
        is_word(word),
        rest.len() == 0 || is_white(rest[0]),
    ensures
        words(word + rest) == seq![word] + words(rest),
{
    let s = word + rest;
    lemma_word_len_of(word, rest);
    assert(s[0] == word[0]);
    assert(s.take(word.len() as int) =~= word);
    assert(s.skip(word.len() as int) =~= rest);
}

proof fn lemma_decimal_is_word(n: nat)
    ensures
        is_word(decimal(n)),
{
    lemma_decimal_digits(n);
    assert forall|i: int| 0 <= i < decimal(n).len() implies !is_white(#[trigger] decimal(n)[i]) by {
        assert('0' <= decimal(n)[i] <= '9');
    }
}

proof fn lemma_space_before(s: Seq<char>)
    ensures
        words(seq![' '] + s) == words(s),
{
    assert((seq![' '] + s).drop_first() =~= s);
}

/// What is kept of a video's measures reads back as the same measures.
pub proof fn meta_reads_back(meta: VideoMeta)
    ensures
        meta_of(kept_text(meta)) == Ok::<VideoMeta, Seq<char>>(meta),
{
    let (a, b, c, d) = (
        decimal(meta.orig_width as nat),
        decimal(meta.orig_height as nat),
        decimal(meta.frame_width as nat),
        decimal(meta.frame_height as nat),
    );
    let space = seq![' '];
    lemma_decimal_is_word(meta.orig_width as nat);
    lemma_decimal_is_word(meta.orig_height as nat);
    lemma_decimal_is_word(meta.frame_width as nat);
    lemma_decimal_is_word(meta.frame_height as nat);
    decimal_reads_back(meta.orig_width as nat);
    decimal_reads_back(meta.orig_height as nat);
    decimal_reads_back(meta.frame_width as nat);
    decimal_reads_back(meta.frame_height as nat);

    let from_c = c + (space + d);
    let from_b = b + (space + from_c);
    let from_a = a + (space + from_b);
    assert(kept_text(meta) =~= from_a);
    lemma_first_word(d, seq![]);
    assert(d + seq![] =~= d);
    lemma_first_word(c, space + d);
    lemma_space_before(d);
    lemma_first_word(b, space + from_c);
    lemma_space_before(from_c);
    lemma_first_word(a, space + from_b);
    lemma_space_before(from_b);
    assert(words(seq![]) =~= seq![]);
    assert(words(kept_text(meta)) =~= seq![a, b, c, d]);
}

/// The numbers among some words, in order.
pub open spec fn numbers_in(list: Seq<Seq<char>>) -> Seq<nat>
    decreases list.len(),
{
    if list.len() == 0 {
        seq![]
    } else {
        match read_number(list.last()) {
            Ok(n) => numbers_in(list.drop_last()).push(n),
            Err(_) => numbers_in(list.drop_last()),
        }
    }
}

/// Width and height of a video: the first two numbers of a report, or a message that holds it.
pub open spec fn dimensions_of(report: Seq<char>) -> Result<(nat, nat), Seq<char>> {
    let numbers = numbers_in(words(report));
    if numbers.len() < 2 {
        Err("Could not read video dimensions: "@ + report)
    } else {
        Ok((numbers[0], numbers[1]))
    }
}

/// Width and height of a video, by the text that a probing tool reports.
pub fn dimensions_in(report: &str) -> (r: Result<(usize, usize), String>)
    ensures
        match r {
            Ok(d) => dimensions_of(report@) == Ok::<(nat, nat), Seq<char>>((d.0 as nat, d.1 as nat)),
            Err(message) => dimensions_of(report@) == Err::<(nat, nat), Seq<char>>(message@),
        },
{
    let parts = words_of(report);
    let mut nums: Vec<usize> = Vec::new();
    let mut i: usize = 0;
    assert(views(parts@).take(0) =~= seq![]);
    while i < parts.len()
        invariant
            i <= parts@.len(),
            nums@.map_values(|n: usize| n as nat) == numbers_in(views(parts@).take(i as int)),
        decreases parts@.len() - i,
    {
        let ghost before = nums@;
        assert(views(parts@).take(i + 1).drop_last() =~= views(parts@).take(i as int));
        assert(views(parts@).take(i + 1).last() == parts@[i as int]@);
        if let Ok(n) = parse_number(&parts[i]) {
            nums.push(n);
            assert(nums@.map_values(|n: usize| n as nat) =~= before.map_values(
                |n: usize| n as nat,
            ).push(n as nat));
        }
        i = i + 1;
    }
    assert(views(parts@).take(i as int) =~= views(parts@));
    assert(nums@.map_values(|n: usize| n as nat).len() == nums@.len());
    if nums.len() < 2 {
        let mut message = "Could not read video dimensions: ".to_owned();
        message.append(report);
        return Err(message);
    }
    assert(nums@.map_values(|n: usize| n as nat)[0] == nums@[0] as nat);
    assert(nums@.map_values(|n: usize| n as nat)[1] == nums@[1] as nat);
    Ok((nums[0], nums[1]))
}

/// Width and height of a video, by the bytes that a probing tool writes.
pub fn get_video_dimensions(stdout: &[u8]) -> (r: Result<(usize, usize), String>)
    ensures
        match r {
            Ok(d) => dimensions_of(lossy_text(stdout@)) == Ok::<(nat, nat), Seq<char>>(
                (d.0 as nat, d.1 as nat),
            ),
            Err(message) => dimensions_of(lossy_text(stdout@)) == Err::<(nat, nat), Seq<char>>(
                message@,
            ),
        },
        valid_utf8(stdout@) ==> match r {
            Ok(d) => dimensions_of(decode_utf8(stdout@)) == Ok::<(nat, nat), Seq<char>>(
                (d.0 as nat, d.1 as nat),
            ),
            Err(message) => dimensions_of(decode_utf8(stdout@)) == Err::<(nat, nat), Seq<char>>(
                message@,
            ),
        },
{
    let report = text_of_bytes(stdout);
    dimensions_in(report.as_str())
}

/// The measures of a video to prepare: its own, the width asked for, and the height scaled to it,
/// one pixel at least.
pub fn meta_for(orig_width: usize, orig_height: usize, frame_width: usize, scaled: usize) -> (r:
    VideoMeta)
    ensures
        r == (VideoMeta {
            orig_width,
            orig_height,
            frame_width,
            frame_height: if scaled > 0 {
                scaled
            } else {
                1
            },
        }),
{
    VideoMeta {
        orig_width,
        orig_height,
        frame_width,
        frame_height: if scaled > 0 {
            scaled
        } else {
            1
        },
    }
}

/// Bytes of a frame: three for each pixel.
pub fn frame_size(meta: &VideoMeta) -> (r: usize)
    requires
        meta.frame_width * meta.frame_height * 3 <= usize::MAX,
    ensures
        r == meta.frame_width * meta.frame_height * 3,
{
    assert(0 <= meta.frame_width * meta.frame_height) by (nonlinear_arith);
    meta.frame_width * meta.frame_height * 3
}

/// A report is searched for numbers in order: a further word adds its number behind the others, or
/// nothing where it is none.
pub proof fn words_add_their_numbers(list: Seq<Seq<char>>, word: Seq<char>)
    ensures
        numbers_in(Seq::<Seq<char>>::empty()).len() == 0,
        read_number(word) is Ok ==> numbers_in(list.push(word)) == numbers_in(list).push(
            read_number(word)->Ok_0,
        ),
        read_number(word) is Err ==> numbers_in(list.push(word)) == numbers_in(list),
{
    assert(list.push(word).drop_last() =~= list);
}

proof fn lemma_no_numbers(list: Seq<Seq<char>>)
    requires
        forall|k: int| 0 <= k < list.len() ==> read_number(#[trigger] list[k]) is Err,
    ensures
        numbers_in(list).len() == 0,
    decreases list.len(),
{
    if list.len() > 0 {
        lemma_no_numbers(list.drop_last());
    }
}

proof fn lemma_numbers_concat(a: Seq<Seq<char>>, b: Seq<Seq<char>>)
    ensures
        numbers_in(a + b) == numbers_in(a) + numbers_in(b),
    decreases b.len(),
{
    if b.len() == 0 {
        assert(a + b =~= a);
        assert(numbers_in(a) + numbers_in(b) =~= numbers_in(a));
    } else {
        lemma_numbers_concat(a, b.drop_last());
        assert((a + b).drop_last() =~= a + b.drop_last());
        assert(numbers_in(a + b) =~= numbers_in(a) + numbers_in(b));
    }
}

/// Width and height are the first two numbers among the words of a report, whatever stands between
/// and behind them.
pub proof fn first_two_numbers_are_the_dimensions(report: Seq<char>, i: int, j: int)
    requires
        0 <= i < j < words(report).len(),
        read_number(words(report)[i]) is Ok,
        read_number(words(report)[j]) is Ok,
        forall|k: int|
            0 <= k < j && k != i ==> read_number(#[trigger] words(report)[k]) is Err,
    ensures
        dimensions_of(report) == Ok::<(nat, nat), Seq<char>>(
            (read_number(words(report)[i])->Ok_0, read_number(words(report)[j])->Ok_0),
        ),
{
    let w = words(report);
    let (before, between, behind) = (w.take(i), w.subrange(i + 1, j), w.skip(j + 1));
    let (a, b) = (seq![w[i]], seq![w[j]]);
    assert(w =~= before + (a + (between + (b + behind))));
    lemma_no_numbers(before);
    lemma_no_numbers(between);
    lemma_numbers_concat(before, a + (between + (b + behind)));
    lemma_numbers_concat(a, between + (b + behind));
    lemma_numbers_concat(between, b + behind);
    lemma_numbers_concat(b, behind);
    words_add_their_numbers(seq![], w[i]);
    words_add_their_numbers(seq![], w[j]);
    assert(Seq::<Seq<char>>::empty().push(w[i]) =~= a);
    assert(Seq::<Seq<char>>::empty().push(w[j]) =~= b);
    let (n, m) = (read_number(w[i])->Ok_0, read_number(w[j])->Ok_0);
    assert(numbers_in(a) =~= seq![n]);
    assert(numbers_in(b) =~= seq![m]);
    assert(numbers_in(w)[0] == n && numbers_in(w)[1] == m);
}

/// A report with fewer than two numbers gives none, and a message that holds it whole.
pub proof fn reports_without_dimensions(report: Seq<char>, i: int)
    requires
        forall|k: int|
            0 <= k < words(report).len() && k != i ==> read_number(#[trigger] words(report)[k]) is Err,
    ensures
        dimensions_of(report) == Err::<(nat, nat), Seq<char>>(
            "Could not read video dimensions: "@ + report,
        ),
{
    let w = words(report);
    if 0 <= i < w.len() {
        let (before, behind) = (w.take(i), w.skip(i + 1));
        let a = seq![w[i]];
        assert(w =~= before + (a + behind));
        lemma_no_numbers(before);
        lemma_no_numbers(behind);
        lemma_numbers_concat(before, a + behind);
        lemma_numbers_concat(a, behind);
        words_add_their_numbers(seq![], w[i]);
        assert(Seq::<Seq<char>>::empty().push(w[i]) =~= a);
    } else {
        lemma_no_numbers(w);
    }
}

/// Measures are the first four words, each a number; further words do not count. Fewer words, or a
/// word among the four that is no number, are an error that names the first of them.
pub proof fn measures_are_the_first_four_words(text: Seq<char>)
    ensures
        ({
            let w = words(text);
            let r = meta_of(text);
            let reason = |e: NumberError|
                match e {
                    NumberError::Empty => "cannot parse integer from empty string"@,
                    NumberError::InvalidDigit => "invalid digit found in string"@,
                    NumberError::TooLarge => "number too large to fit in target type"@,
                };
            &&& w.len() < 4 ==> r == Err::<VideoMeta, Seq<char>>(
                "Invalid meta.txt. Re-run: bad-apple --force <URL>"@,
            )
            &&& r is Ok <==> w.len() >= 4 && read_number(w[0]) is Ok && read_number(w[1]) is Ok
                && read_number(w[2]) is Ok && read_number(w[3]) is Ok
            &&& r matches Ok(meta) ==> {
                &&& meta.orig_width as nat == read_number(w[0])->Ok_0
                &&& meta.orig_height as nat == read_number(w[1])->Ok_0
                &&& meta.frame_width as nat == read_number(w[2])->Ok_0
                &&& meta.frame_height as nat == read_number(w[3])->Ok_0
            }
            &&& w.len() >= 4 && read_number(w[0]) is Err ==> r == Err::<VideoMeta, Seq<char>>(
                "Invalid "@ + "orig_width"@ + ": "@ + reason(read_number(w[0])->Err_0),
            )
            &&& w.len() >= 4 && read_number(w[0]) is Ok && read_number(w[1]) is Err ==> r == Err::<
                VideoMeta,
                Seq<char>,
            >("Invalid "@ + "orig_height"@ + ": "@ + reason(read_number(w[1])->Err_0))
            &&& w.len() >= 4 && read_number(w[0]) is Ok && read_number(w[1]) is Ok && read_number(
                w[2],
            ) is Err ==> r == Err::<VideoMeta, Seq<char>>(
                "Invalid "@ + "frame_width"@ + ": "@ + reason(read_number(w[2])->Err_0),
            )
            &&& w.len() >= 4 && read_number(w[0]) is Ok && read_number(w[1]) is Ok && read_number(
                w[2],
            ) is Ok && read_number(w[3]) is Err ==> r == Err::<VideoMeta, Seq<char>>(
                "Invalid "@ + "frame_height"@ + ": "@ + reason(read_number(w[3])->Err_0),
            )
        }),
{
    let w = words(text);
    if w.len() >= 4 {
        lemma_read_fits(w[0]);
        lemma_read_fits(w[1]);
        lemma_read_fits(w[2]);
        lemma_read_fits(w[3]);
    }
}

proof fn lemma_digits_fit(value: nat, s: Seq<char>, max: nat)
    requires
        value <= max,
    ensures
        read_digits(value, s, max) is Ok ==> read_digits(value, s, max)->Ok_0 <= max,
    decreases s.len(),
{
    if s.len() > 0 {
        if let Some(d) = digit_value(s[0]) {
            if value * 10 + d <= max {
                lemma_digits_fit(value * 10 + d, s.drop_first(), max);
            }
        }
    }
}

proof fn lemma_read_fits(s: Seq<char>)
    ensures
        read_number(s) is Ok ==> read_number(s)->Ok_0 <= usize::MAX,
{
    lemma_digits_fit(0, s, usize::MAX as nat);
    lemma_digits_fit(0, s.drop_first(), usize::MAX as nat);
}

} // verus!
