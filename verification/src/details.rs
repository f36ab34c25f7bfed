//! Everything `ffprobe` says of a file, flattened to rows of label and value:
//! the container and its tags, then each stream.

use vstd::prelude::*;

use crate::binary::{of_nanos, Binary};
use crate::fixed::{magnitude, parse_fixed, parsed, pointed, pointed_chars, Fixed, LIMIT};
use crate::json::{document, parse_json, Json, JsonView};
use crate::number::{digits, print};
use crate::probe::{content, non_empty};
use crate::text::{
    add_chars, add_text, before, chars_of, find, find_char, is_before, join, joined,
    lemma_before_antisymmetric, lowered, string_of, text_view, views,
};

verus! {

/// A text in lower case, as the Unicode standard has it.
pub uninterp spec fn lowercase(s: Seq<char>) -> Seq<char>;

/// Whether a text is of the basic alphabet alone.
pub open spec fn basic(s: Seq<char>) -> bool {
    forall|i: int| 0 <= i < s.len() ==> (#[trigger] s[i] as u32) < 128
}

/// `str::to_lowercase`: what it makes of a text depends on the text alone. In a
/// text of the basic alphabet the letters `A` to `Z` become `a` to `z`, and
/// nothing else changes.
#[verifier::external_body]
fn to_lower(s: &str) -> (r: String)
    ensures
        r@ == lowercase(s@),
        basic(s@) ==> r@ == lowered(s@),
{
    s.to_lowercase()
}

/// A text in lower case: of the basic alphabet, letter by letter; of any other, as
/// the Unicode standard has it.
pub open spec fn in_lower(s: Seq<char>) -> Seq<char> {
    if basic(s) {
        lowered(s)
    } else {
        lowercase(s)
    }
}

fn lower_text(s: &str) -> (r: String)
    ensures
        r@ == in_lower(s@),
{
    to_lower(s)
}

/// Spaces for underscores.
pub open spec fn spaced(s: Seq<char>) -> Seq<char> {
    Seq::new(
        s.len(),
        |i: int|
            if s[i] == '_' {
                ' '
            } else {
                s[i]
            },
    )
}

/// A letter of the basic alphabet as a capital.
pub open spec fn capital(c: char) -> char {
    if 'a' <= c <= 'z' {
        (c as u8 - 32) as char
    } else {
        c
    }
}

/// The first character as a capital.
pub open spec fn capitalised(s: Seq<char>) -> Seq<char> {
    if s.len() > 0 {
        s.update(0, capital(s[0]))
    } else {
        s
    }
}

/// Labels arrive as written by whatever wrote the file: `TITLE`, `title`,
/// `Title`. One shape for all of them.
pub open spec fn titled(key: Seq<char>) -> Seq<char> {
    capitalised(in_lower(spaced(key)))
}

/// A label in the one shape that labels have.
pub fn titlecase(key: &str) -> (r: String)
    ensures
        r@ == titled(key@),
        basic(key@) ==> r@ == capitalised(lowered(spaced(key@))),
{
    let mut chars = chars_of(key);
    let mut i: usize = 0;
    while i < chars.len()
        invariant
            i <= chars@.len(),
            chars@.len() == key@.len(),
            forall|k: int| 0 <= k < i ==> chars@[k] == spaced(key@)[k],
            forall|k: int| i <= k < chars@.len() ==> chars@[k] == key@[k],
        decreases chars@.len() - i,
    {
        if chars[i] == '_' {
            chars.set(i, ' ');
        }
        i = i + 1;
    }
    assert(chars@ =~= spaced(key@));
    let text = string_of(chars.as_slice());
    let low = lower_text(text.as_str());
    let mut out = chars_of(low.as_str());
    if out.len() > 0 {
        let c: char = out[0];
        if 'a' <= c && c <= 'z' {
            out.set(0, (c as u8 - 32) as char);
        } else {
            out.set(0, c);
        }
    }
    assert(out@ =~= titled(key@));
    string_of(out.as_slice())
}

/// A key put in its place: behind every key that does not stand after it, case
/// aside.
pub open spec fn inserted(keys: Seq<Seq<char>>, key: Seq<char>) -> Seq<Seq<char>>
    decreases keys.len(),
{
    if keys.len() > 0 && before(in_lower(key), in_lower(keys.last())) {
        inserted(keys.drop_last(), key).push(keys.last())
    } else {
        keys.push(key)
    }
}

/// Keys in order, case aside; keys that differ in case only stay as they came.
pub open spec fn in_order(keys: Seq<Seq<char>>) -> Seq<Seq<char>>
    decreases keys.len(),
{
    if keys.len() == 0 {
        keys
    } else {
        inserted(in_order(keys.drop_last()), keys.last())
    }
}

/// A value as it is shown: a text that is not blank, a number, or a truth value.
pub open spec fn shown_value(v: JsonView) -> Option<Seq<char>> {
    match v {
        JsonView::Text(s) => content(s),
        JsonView::Number(n) => Some(n),
        JsonView::Bool(b) => Some(
            if b {
                "true"@
            } else {
                "false"@
            },
        ),
        _ => None,
    }
}

fn show_value(v: &Json) -> (r: Option<String>)
    ensures
        text_view(r) == shown_value(v@),
{
    match v {
        Json::Text(s) => non_empty(s.as_str()),
        Json::Number(n) => Some(n.clone()),
        Json::Bool(b) => Some(
            if *b {
                "true".to_owned()
            } else {
                "false".to_owned()
            },
        ),
        _ => None,
    }
}

/// The value behind a key, as it is shown.
pub open spec fn field(v: JsonView, key: Seq<char>) -> Option<Seq<char>> {
    match v.get(key) {
        Some(found) => shown_value(found),
        None => None,
    }
}

fn read_field(v: &Json, key: &str) -> (r: Option<String>)
    ensures
        text_view(r) == field(v@, key@),
{
    match v.get(key) {
        Some(found) => show_value(found),
        None => None,
    }
}

/// Bits per second, in the unit that suits their number. What is no number is
/// shown as it is.
pub open spec fn bitrate_text(s: Seq<char>) -> Seq<char> {
    match parsed(s) {
        Some(Fixed::Nanos(n)) => if n >= 1_000_000_000_000_000 {
            pointed(of_nanos(n as nat).divided(1_000_000).parts(10), 1) + " Mb/s"@
        } else if n >= 1_000_000_000_000 {
            digits(of_nanos(n as nat).divided(1_000).parts(1)) + " kb/s"@
        } else if n >= 0 {
            digits(of_nanos(n as nat).parts(1)) + " b/s"@
        } else {
            seq!['-'] + digits(of_nanos((-(n as int)) as nat).parts(1)) + " b/s"@
        },
        Some(Fixed::PosInfinity) => "inf Mb/s"@,
        Some(Fixed::NegInfinity) => "-inf b/s"@,
        Some(Fixed::NaN) => "NaN b/s"@,
        None => s,
    }
}

/// Bits per second, in the unit that suits their number.
pub fn format_bitrate(bits_per_sec: &str) -> (r: String)
    ensures
        r@ == bitrate_text(bits_per_sec@),
{
    let chars = chars_of(bits_per_sec);
    match parse_fixed(chars.as_slice()) {
        Some(Fixed::Nanos(n)) => {
            if n >= 1_000_000_000_000_000 {
                let rate = Binary::of_nanos(n as u128).divided(1_000_000);
                let mut out = pointed_chars(rate.parts(10), 1);
                add_text(&mut out, " Mb/s");
                string_of(out.as_slice())
            } else if n >= 1_000_000_000_000 {
                let rate = Binary::of_nanos(n as u128).divided(1_000);
                let mut out = print(rate.parts(1));
                add_text(&mut out, " kb/s");
                string_of(out.as_slice())
            } else {
                let body = print(Binary::of_nanos(magnitude(n)).parts(1));
                let mut out: Vec<char> = Vec::new();
                if n < 0 {
                    out.push('-');
                }
                add_chars(&mut out, body.as_slice());
                add_text(&mut out, " b/s");
                assert(out@ =~= bitrate_text(bits_per_sec@));
                string_of(out.as_slice())
            }
        },
        Some(Fixed::PosInfinity) => "inf Mb/s".to_owned(),
        Some(Fixed::NegInfinity) => "-inf b/s".to_owned(),
        Some(Fixed::NaN) => "NaN b/s".to_owned(),
        None => bits_per_sec.to_owned(),
    }
}

/// The magnitude of a number of billionths.
pub open spec fn size_of(n: i128) -> nat {
    if n < 0 {
        (-(n as int)) as nat
    } else {
        n as nat
    }
}

/// A whole rate, held to what 64 bits with a sign can say.
pub open spec fn whole_rate(q: nat, negative: bool) -> Seq<char> {
    if negative && q > 0 {
        seq!['-'] + digits(
            if q > 0x8000_0000_0000_0000 {
                0x8000_0000_0000_0000
            } else {
                q
            },
        )
    } else {
        digits(
            if q > 0x7fff_ffff_ffff_ffff {
                0x7fff_ffff_ffff_ffff
            } else {
                q
            },
        )
    }
}

/// A whole number where the rate is within a hundredth of one; else two decimal
/// places.
pub open spec fn rate_text(a: nat, b: nat, negative: bool) -> Seq<char> {
    let rate = of_nanos(a).over(of_nanos(b));
    if rate.is_near_whole() {
        whole_rate(rate.whole(), negative)
    } else if negative {
        seq!['-'] + pointed(rate.parts(100), 2)
    } else {
        pointed(rate.parts(100), 2)
    }
}

/// A ratio of two numbers as a rate; none where either is zero.
pub open spec fn ratio_text(num: Fixed, den: Fixed) -> Option<Seq<char>> {
    match (num, den) {
        (Fixed::Nanos(a), Fixed::Nanos(b)) => if a == 0 || b == 0 {
            None
        } else {
            Some(rate_text(size_of(a), size_of(b), (a < 0) != (b < 0)))
        },
        (Fixed::NaN, Fixed::Nanos(b)) => if b == 0 {
            None
        } else {
            Some("NaN"@)
        },
        (_, Fixed::Nanos(b)) => if b == 0 {
            None
        } else if (num is NegInfinity) != (b < 0) {
            Some("-inf"@)
        } else {
            Some("inf"@)
        },
        (Fixed::Nanos(a), Fixed::NaN) => if a == 0 {
            None
        } else {
            Some("NaN"@)
        },
        (Fixed::Nanos(a), _) => if a == 0 {
            None
        } else {
            Some("0"@)
        },
        (_, _) => Some("NaN"@),
    }
}

/// A frame rate, which `ffprobe` writes as a ratio such as `30000/1001`, as a
/// number.
pub open spec fn frame_rate_text(ratio: Seq<char>) -> Option<Seq<char>> {
    let k = find(ratio, '/');
    if k < ratio.len() {
        match (parsed(ratio.take(k)), parsed(ratio.skip(k + 1))) {
            (Some(num), Some(den)) => ratio_text(num, den),
            _ => None,
        }
    } else {
        None
    }
}

fn format_rate(a: u128, b: u128, negative: bool) -> (out: Vec<char>)
    requires
        0 < a <= LIMIT,
        0 < b <= LIMIT,
    ensures
        out@ == rate_text(a as nat, b as nat, negative),
{
    let rate = Binary::of_nanos(a).over(Binary::of_nanos(b));
    let mut out: Vec<char> = Vec::new();
    if rate.is_near_whole() {
        let q: u128 = rate.whole_upto(
            if negative {
                0x8000_0000_0000_0000
            } else {
                0x7fff_ffff_ffff_ffff
            },
        );
        if negative && q > 0 {
            out.push('-');
        }
        let body = print(q);
        add_chars(&mut out, body.as_slice());
    } else {
        if negative {
            out.push('-');
        }
        let body = pointed_chars(rate.parts(100), 2);
        add_chars(&mut out, body.as_slice());
    }
    assert(out@ =~= rate_text(a as nat, b as nat, negative));
    out
}

/// A frame rate written as a ratio, as a number.
pub fn frame_rate(ratio: &str) -> (r: Option<String>)
    ensures
        text_view(r) == frame_rate_text(ratio@),
{
    let chars = chars_of(ratio);
    let n: usize = chars.len();
    let k: usize = find_char(chars.as_slice(), '/');
    if k >= n {
        return None;
    }
    let head = vstd::slice::slice_subrange(chars.as_slice(), 0, k);
    assert(head@ =~= ratio@.take(k as int));
    let tail = vstd::slice::slice_subrange(chars.as_slice(), k + 1, n);
    assert(tail@ =~= ratio@.skip(k as int + 1));
    let num: Fixed = match parse_fixed(head) {
        Some(f) => f,
        None => {
            return None;
        },
    };
    let den: Fixed = match parse_fixed(tail) {
        Some(f) => f,
        None => {
            return None;
        },
    };
    proof {
        crate::fixed::lemma_parsed_within_limit(ratio@.take(k as int));
        crate::fixed::lemma_parsed_within_limit(ratio@.skip(k as int + 1));
    }
    match (num, den) {
        (Fixed::Nanos(a), Fixed::Nanos(b)) => if a == 0 || b == 0 {
            None
        } else {
            let out = format_rate(magnitude(a), magnitude(b), (a < 0) != (b < 0));
            Some(string_of(out.as_slice()))
        },
        (Fixed::NaN, Fixed::Nanos(b)) => if b == 0 {
            None
        } else {
            Some("NaN".to_owned())
        },
        (Fixed::PosInfinity, Fixed::Nanos(b)) => if b == 0 {
            None
        } else if b < 0 {
            Some("-inf".to_owned())
        } else {
            Some("inf".to_owned())
        },
        (Fixed::NegInfinity, Fixed::Nanos(b)) => if b == 0 {
            None
        } else if b < 0 {
            Some("inf".to_owned())
        } else {
            Some("-inf".to_owned())
        },
        (Fixed::Nanos(a), Fixed::NaN) => if a == 0 {
            None
        } else {
            Some("NaN".to_owned())
        },
        (Fixed::Nanos(a), _) => if a == 0 {
            None
        } else {
            Some("0".to_owned())
        },
        (_, _) => Some("NaN".to_owned()),
    }
}

/// A row of label and value.
pub type Row = (Seq<char>, Seq<char>);

/// A row, where there is a value to show.
pub open spec fn row(label: Seq<char>, value: Option<Seq<char>>) -> Seq<Row> {
    match value {
        Some(v) => seq![(label, v)],
        None => Seq::empty(),
    }
}

pub open spec fn rated(value: Option<Seq<char>>) -> Option<Seq<char>> {
    match value {
        Some(v) => Some(bitrate_text(v)),
        None => None,
    }
}

/// The keys of an object.
pub open spec fn keys_of(v: JsonView) -> Seq<Seq<char>> {
    match v {
        JsonView::Object(entries) => Seq::new(entries.len(), |i: int| entries[i].0),
        _ => Seq::empty(),
    }
}

/// A row for each of the first `k` keys whose value can be shown.
pub open spec fn tag_rows(tags: JsonView, keys: Seq<Seq<char>>) -> Seq<Row>
    decreases keys.len(),
{
    if keys.len() == 0 {
        Seq::empty()
    } else {
        tag_rows(tags, keys.drop_last()) + row(titled(keys.last()), field(tags, keys.last()))
    }
}

/// The rows of the container and its tags.
pub open spec fn format_rows(format: JsonView) -> Seq<Row> {
    row("Container"@, field(format, "format_long_name"@)) + row(
        "Bit rate"@,
        rated(field(format, "bit_rate"@)),
    ) + (match format.get("tags"@) {
        Some(tags) => tag_rows(tags, in_order(keys_of(tags))),
        None => Seq::empty(),
    })
}

/// The kind of a stream.
pub open spec fn kind_of(stream: JsonView) -> Seq<char> {
    match field(stream, "codec_type"@) {
        Some(kind) => kind,
        None => "stream"@,
    }
}

/// How many of the streams are of a kind.
pub open spec fn count_kind(streams: Seq<JsonView>, kind: Seq<char>) -> nat
    decreases streams.len(),
{
    if streams.len() == 0 {
        0
    } else {
        count_kind(streams.drop_last(), kind) + (if kind_of(streams.last()) == kind {
            1nat
        } else {
            0nat
        })
    }
}

/// A part with words before and after it, where there is one.
pub open spec fn part(value: Option<Seq<char>>, unit: Seq<char>) -> Seq<Seq<char>> {
    match value {
        Some(v) => seq![v + unit],
        None => Seq::empty(),
    }
}

pub open spec fn size_part(stream: JsonView) -> Seq<Seq<char>> {
    match (field(stream, "width"@), field(stream, "height"@)) {
        (Some(w), Some(h)) => seq![w + "×"@ + h],
        _ => Seq::empty(),
    }
}

pub open spec fn fps_of(stream: JsonView) -> Option<Seq<char>> {
    match field(stream, "avg_frame_rate"@) {
        Some(r) => frame_rate_text(r),
        None => None,
    }
}

pub open spec fn channel_part(stream: JsonView) -> Seq<Seq<char>> {
    match field(stream, "channel_layout"@) {
        Some(layout) => seq![layout],
        None => part(field(stream, "channels"@), " ch"@),
    }
}

pub open spec fn rate_part(value: Option<Seq<char>>) -> Seq<Seq<char>> {
    match value {
        Some(v) => seq![bitrate_text(v)],
        None => Seq::empty(),
    }
}

pub open spec fn codec_part(stream: JsonView) -> Seq<Seq<char>> {
    match field(stream, "codec_name"@) {
        Some(codec) => seq![codec],
        None => Seq::empty(),
    }
}

/// What is shown of a stream: codec, size, frame rate, sample rate, channels and
/// bit rate, each where it is known.
pub open spec fn stream_parts(stream: JsonView) -> Seq<Seq<char>> {
    codec_part(stream) + size_part(stream) + part(fps_of(stream), " fps"@) + part(
        field(stream, "sample_rate"@),
        " Hz"@,
    ) + channel_part(stream) + rate_part(field(stream, "bit_rate"@))
}

/// The rows of the streams, each numbered within its kind, since that is how
/// anyone thinks of them.
pub open spec fn stream_rows(streams: Seq<JsonView>) -> Seq<Row>
    decreases streams.len(),
{
    if streams.len() == 0 {
        Seq::empty()
    } else {
        let kind = kind_of(streams.last());
        stream_rows(streams.drop_last()) + row(
            titled(kind) + " "@ + digits(count_kind(streams, kind)),
            content(joined(stream_parts(streams.last()), " · "@)),
        )
    }
}

/// All rows of a document.
pub open spec fn detail_rows(doc: JsonView) -> Seq<Row> {
    (match doc.get("format"@) {
        Some(format) => format_rows(format),
        None => Seq::empty(),
    }) + (match doc.get("streams"@) {
        Some(s) => match s.array() {
            Some(streams) => stream_rows(streams),
            None => Seq::empty(),
        },
        None => Seq::empty(),
    })
}

/// The text of each row.
pub open spec fn rows_view(rows: Seq<(String, String)>) -> Seq<Row> {
    Seq::new(rows.len(), |i: int| (rows[i].0@, rows[i].1@))
}

fn add_row(rows: &mut Vec<(String, String)>, label: String, value: Option<String>)
    ensures
        rows_view(final(rows)@) == rows_view(old(rows)@) + row(label@, text_view(value)),
{
    match value {
        Some(v) => {
            rows.push((label, v));
            assert(rows_view(rows@) =~= rows_view(old(rows)@) + seq![(label@, v@)]);
        },
        None => {
            assert(rows_view(rows@) =~= rows_view(old(rows)@) + Seq::<Row>::empty());
        },
    }
}

fn rate_value(value: Option<String>) -> (r: Option<String>)
    ensures
        text_view(r) == rated(text_view(value)),
{
    match value {
        Some(v) => Some(format_bitrate(v.as_str())),
        None => None,
    }
}

/// Put a key in its place.
fn insert_key(keys: &mut Vec<Vec<char>>, key: Vec<char>)
    ensures
        views(final(keys)@) == inserted(views(old(keys)@), key@),
    decreases old(keys)@.len(),
{
    let ghost start = views(keys@);
    if keys.len() > 0 {
        let text = string_of(key.as_slice());
        let low = lower_text(text.as_str());
        let low_chars = chars_of(low.as_str());
        let last_text = string_of(keys[keys.len() - 1].as_slice());
        let last_low = lower_text(last_text.as_str());
        let last_chars = chars_of(last_low.as_str());
        assert(start.last() == keys@[keys@.len() - 1]@);
        if is_before(low_chars.as_slice(), last_chars.as_slice()) {
            let last = keys.pop().unwrap();
            assert(views(keys@) =~= start.drop_last());
            insert_key(keys, key);
            let ghost mid = views(keys@);
            keys.push(last);
            assert(views(keys@) =~= mid.push(last@));
            return;
        }
    }
    keys.push(key);
    assert(views(keys@) =~= start.push(key@));
}

/// The keys of an object, in order.
fn ordered_keys(tags: &Json) -> (keys: Vec<Vec<char>>)
    ensures
        views(keys@) == in_order(keys_of(tags@)),
{
    let mut keys: Vec<Vec<char>> = Vec::new();
    match tags {
        Json::Object(entries) => {
            let ghost all = keys_of(tags@);
            let mut i: usize = 0;
            assert(views(keys@) =~= in_order(all.take(0)));
            while i < entries.len()
                invariant
                    i <= entries@.len(),
                    *tags == Json::Object(*entries),
                    all == keys_of(tags@),
                    all.len() == entries@.len(),
                    views(keys@) == in_order(all.take(i as int)),
                decreases entries@.len() - i,
            {
                assert(all.take(i as int + 1).drop_last() =~= all.take(i as int));
                assert(all.take(i as int + 1).last() == entries@[i as int].0@);
                insert_key(&mut keys, chars_of(entries[i].0.as_str()));
                i = i + 1;
            }
            assert(all.take(i as int) =~= all);
        },
        _ => {
            assert(views(keys@) =~= in_order(keys_of(tags@)));
        },
    }
    keys
}

fn add_tag_rows(rows: &mut Vec<(String, String)>, tags: &Json)
    ensures
        rows_view(final(rows)@) == rows_view(old(rows)@) + tag_rows(
            tags@,
            in_order(keys_of(tags@)),
        ),
{
    let keys = ordered_keys(tags);
    let ghost all = views(keys@);
    let ghost start = rows_view(rows@);
    let mut i: usize = 0;
    assert(start + tag_rows(tags@, all.take(0)) =~= start);
    while i < keys.len()
        invariant
            i <= keys@.len(),
            all == views(keys@),
            rows_view(rows@) == start + tag_rows(tags@, all.take(i as int)),
        decreases keys@.len() - i,
    {
        let key = string_of(keys[i].as_slice());
        proof {
            assert(all.take(i as int + 1).drop_last() =~= all.take(i as int));
            assert(all.take(i as int + 1).last() == keys@[i as int]@);
        }
        let ghost added = row(titled(key@), field(tags@, key@));
        add_row(rows, titlecase(key.as_str()), read_field(tags, key.as_str()));
        proof {
            assert(start + tag_rows(tags@, all.take(i as int)) + added =~= start + (tag_rows(
                tags@,
                all.take(i as int),
            ) + added));
        }
        i = i + 1;
    }
    assert(all.take(i as int) =~= all);
}

fn add_format_rows(rows: &mut Vec<(String, String)>, format: &Json)
    ensures
        rows_view(final(rows)@) == rows_view(old(rows)@) + format_rows(format@),
{
    let ghost start = rows_view(rows@);
    add_row(rows, "Container".to_owned(), read_field(format, "format_long_name"));
    add_row(rows, "Bit rate".to_owned(), rate_value(read_field(format, "bit_rate")));
    match format.get("tags") {
        Some(tags) => add_tag_rows(rows, tags),
        None => {},
    }
    proof {
        let a = row("Container"@, field(format@, "format_long_name"@));
        let b = row("Bit rate"@, rated(field(format@, "bit_rate"@)));
        let c = match format@.get("tags"@) {
            Some(tags) => tag_rows(tags, in_order(keys_of(tags))),
            None => Seq::empty(),
        };
        assert(start + (a + b + c) =~= start + a + b + c);
    }
}

fn kind_text(stream: &Json) -> (r: String)
    ensures
        r@ == kind_of(stream@),
{
    match read_field(stream, "codec_type") {
        Some(kind) => kind,
        None => "stream".to_owned(),
    }
}

/// A text with a unit behind it.
fn united(value: &String, unit: &str) -> (r: Vec<char>)
    ensures
        r@ == value@ + unit@,
{
    let mut out = chars_of(value.as_str());
    add_text(&mut out, unit);
    out
}

fn add_part(parts: &mut Vec<Vec<char>>, value: Option<String>, unit: &str)
    ensures
        views(final(parts)@) == views(old(parts)@) + part(text_view(value), unit@),
{
    match value {
        Some(v) => {
            parts.push(united(&v, unit));
            assert(views(parts@) =~= views(old(parts)@) + part(text_view(value), unit@));
        },
        None => {
            assert(views(parts@) =~= views(old(parts)@) + part(text_view(value), unit@));
        },
    }
}

fn parts_of(stream: &Json) -> (parts: Vec<Vec<char>>)
    ensures
        views(parts@) == stream_parts(stream@),
{
    let mut parts: Vec<Vec<char>> = Vec::new();
    if let Some(codec) = read_field(stream, "codec_name") {
        parts.push(chars_of(codec.as_str()));
    }
    assert(views(parts@) =~= codec_part(stream@));
    let ghost one = views(parts@);
    match (read_field(stream, "width"), read_field(stream, "height")) {
        (Some(w), Some(h)) => {
            let mut out = united(&w, "×");
            add_text(&mut out, h.as_str());
            parts.push(out);
        },
        _ => {},
    }
    assert(views(parts@) =~= one + size_part(stream@));
    let fps = match read_field(stream, "avg_frame_rate") {
        Some(ratio) => frame_rate(ratio.as_str()),
        None => None,
    };
    add_part(&mut parts, fps, " fps");
    add_part(&mut parts, read_field(stream, "sample_rate"), " Hz");
    let ghost four = views(parts@);
    match read_field(stream, "channel_layout") {
        Some(layout) => {
            parts.push(chars_of(layout.as_str()));
            assert(views(parts@) =~= four + channel_part(stream@));
        },
        None => {
            add_part(&mut parts, read_field(stream, "channels"), " ch");
        },
    }
    let ghost five = views(parts@);
    if let Some(bits) = read_field(stream, "bit_rate") {
        let text = format_bitrate(bits.as_str());
        parts.push(chars_of(text.as_str()));
    }
    assert(views(parts@) =~= five + rate_part(field(stream@, "bit_rate"@)));
    parts
}

/// How many of the first `n` streams are of a kind.
fn count(streams: &Vec<Json>, kind: &String, n: usize) -> (r: usize)
    requires
        n <= streams@.len(),
    ensures
        r == count_kind(stream_views(streams@).take(n as int), kind@),
        r <= n,
{
    let ghost all = stream_views(streams@);
    let mut r: usize = 0;
    let mut i: usize = 0;
    assert(all.take(0) =~= Seq::<JsonView>::empty());
    while i < n
        invariant
            i <= n <= streams@.len(),
            r <= i,
            all == stream_views(streams@),
            r == count_kind(all.take(i as int), kind@),
        decreases n - i,
    {
        proof {
            assert(all.take(i as int + 1).drop_last() =~= all.take(i as int));
            assert(all.take(i as int + 1).last() == streams@[i as int]@);
        }
        if kind_text(&streams[i]) == *kind {
            r = r + 1;
        }
        i = i + 1;
    }
    r
}

pub open spec fn stream_views(streams: Seq<Json>) -> Seq<JsonView> {
    Seq::new(streams.len(), |i: int| streams[i]@)
}

fn add_stream_rows(rows: &mut Vec<(String, String)>, streams: &Vec<Json>)
    ensures
        rows_view(final(rows)@) == rows_view(old(rows)@) + stream_rows(stream_views(streams@)),
{
    let ghost all = stream_views(streams@);
    let ghost start = rows_view(rows@);
    let mut i: usize = 0;
    assert(start + stream_rows(all.take(0)) =~= start);
    while i < streams.len()
        invariant
            i <= streams@.len(),
            all == stream_views(streams@),
            rows_view(rows@) == start + stream_rows(all.take(i as int)),
        decreases streams@.len() - i,
    {
        let ghost here = all.take(i as int + 1);
        proof {
            assert(here.drop_last() =~= all.take(i as int));
            assert(here.last() == streams@[i as int]@);
        }
        let kind = kind_text(&streams[i]);
        let nth: usize = count(streams, &kind, i + 1);
        let name = titlecase(kind.as_str());
        let number = print(nth as u128);
        let mut label = chars_of(name.as_str());
        add_text(&mut label, " ");
        add_chars(&mut label, number.as_slice());
        let parts = parts_of(&streams[i]);
        let text = join(&parts, " · ");
        let value = string_of(text.as_slice());
        let ghost added = row(
            titled(kind@) + " "@ + digits(count_kind(here, kind@)),
            content(joined(stream_parts(here.last()), " · "@)),
        );
        add_row(rows, string_of(label.as_slice()), non_empty(value.as_str()));
        proof {
            assert(start + stream_rows(all.take(i as int)) + added =~= start + (stream_rows(
                all.take(i as int),
            ) + added));
        }
        i = i + 1;
    }
    assert(all.take(i as int) =~= all);
}

/// All rows of a document.
pub fn rows_of(doc: &Json) -> (r: Vec<(String, String)>)
    ensures
        rows_view(r@) == detail_rows(doc@),
{
    let mut rows: Vec<(String, String)> = Vec::new();
    let ghost none = Seq::<Row>::empty();
    assert(rows_view(rows@) =~= none);
    match doc.get("format") {
        Some(format) => {
            add_format_rows(&mut rows, format);
            assert(none + format_rows(format@) =~= format_rows(format@));
        },
        None => {},
    }
    let ghost first = rows_view(rows@);
    match doc.get("streams") {
        Some(s) => match s.as_array() {
            Some(streams) => {
                assert(stream_views(streams@) =~= s@.array()->0);
                add_stream_rows(&mut rows, streams);
            },
            None => {
                assert(first + none =~= first);
            },
        },
        None => {
            assert(first + none =~= first);
        },
    }
    rows
}

/// Everything `ffprobe` printed of a file, flattened to rows. Empty where it
/// printed nothing, or nothing that is a document.
pub fn details(output: Option<Vec<u8>>) -> (r: Vec<(String, String)>)
    ensures
        rows_view(r@) == match output {
            Some(bytes) => match document(bytes@) {
                Some(doc) => detail_rows(doc),
                None => Seq::empty(),
            },
            None => Seq::empty(),
        },
{
    let none: Vec<(String, String)> = Vec::new();
    assert(rows_view(none@) =~= Seq::<Row>::empty());
    match output {
        Some(bytes) => match parse_json(bytes.as_slice()) {
            Some(doc) => rows_of(&doc),
            None => none,
        },
        None => none,
    }
}

/// Putting a key in its place neither loses nor adds one.
proof fn lemma_inserted_multiset(keys: Seq<Seq<char>>, key: Seq<char>)
    ensures
        inserted(keys, key).to_multiset() == keys.to_multiset().insert(key),
    decreases keys.len(),
{
    broadcast use vstd::seq_lib::group_to_multiset_ensures;

    if keys.len() > 0 && before(in_lower(key), in_lower(keys.last())) {
        lemma_inserted_multiset(keys.drop_last(), key);
        assert(keys.drop_last().push(keys.last()) =~= keys);
        assert(inserted(keys, key).to_multiset() =~= keys.to_multiset().insert(key));
    }
}

/// Ordering the tags neither loses nor adds one.
pub proof fn law_ordering_keeps_every_key(keys: Seq<Seq<char>>)
    ensures
        in_order(keys).to_multiset() == keys.to_multiset(),
    decreases keys.len(),
{
    broadcast use vstd::seq_lib::group_to_multiset_ensures;

    if keys.len() > 0 {
        law_ordering_keeps_every_key(keys.drop_last());
        lemma_inserted_multiset(in_order(keys.drop_last()), keys.last());
        assert(keys.drop_last().push(keys.last()) =~= keys);
        assert(in_order(keys).to_multiset() =~= keys.to_multiset());
    }
}

/// No key stands directly before one that belongs before it.
pub open spec fn is_ordered(keys: Seq<Seq<char>>) -> bool {
    forall|i: int|
        #![trigger keys[i]]
        0 < i < keys.len() ==> !before(in_lower(keys[i]), in_lower(keys[i - 1]))
}

proof fn lemma_inserted_ordered(keys: Seq<Seq<char>>, key: Seq<char>)
    requires
        is_ordered(keys),
    ensures
        is_ordered(inserted(keys, key)),
        inserted(keys, key).len() == keys.len() + 1,
        inserted(keys, key).last() == key || keys.len() > 0 && inserted(keys, key).last()
            == keys.last(),
    decreases keys.len(),
{
    let out = inserted(keys, key);
    if keys.len() > 0 && before(in_lower(key), in_lower(keys.last())) {
        let front = keys.drop_last();
        assert forall|i: int| #![trigger front[i]] 0 < i < front.len() implies !before(
            in_lower(front[i]),
            in_lower(front[i - 1]),
        ) by {
            assert(front[i] == keys[i] && front[i - 1] == keys[i - 1]);
        }
        lemma_inserted_ordered(front, key);
        let mid = inserted(front, key);
        lemma_before_antisymmetric(in_lower(key), in_lower(keys.last()));
        if front.len() > 0 {
            assert(front.last() == keys[keys.len() - 2]);
            assert(!before(in_lower(keys[keys.len() - 1]), in_lower(keys[keys.len() - 2])));
        }
        assert forall|i: int| #![trigger out[i]] 0 < i < out.len() implies !before(
            in_lower(out[i]),
            in_lower(out[i - 1]),
        ) by {
            if i < mid.len() {
                assert(out[i] == mid[i] && out[i - 1] == mid[i - 1]);
            } else {
                assert(out[i] == keys.last() && out[i - 1] == mid.last());
            }
        }
    } else {
        assert forall|i: int| #![trigger out[i]] 0 < i < out.len() implies !before(
            in_lower(out[i]),
            in_lower(out[i - 1]),
        ) by {
            if i < keys.len() {
                assert(out[i] == keys[i] && out[i - 1] == keys[i - 1]);
            } else {
                assert(out[i] == key && out[i - 1] == keys.last());
            }
        }
    }
}

/// The tags come in the order of their names, case aside.
pub proof fn law_tags_are_ordered(keys: Seq<Seq<char>>)
    ensures
        is_ordered(in_order(keys)),
    decreases keys.len(),
{
    if keys.len() > 0 {
        law_tags_are_ordered(keys.drop_last());
        lemma_inserted_ordered(in_order(keys.drop_last()), keys.last());
    }
}

} // verus!
