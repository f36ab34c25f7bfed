//! What holds of a file's full metadata: its labels, its values and its rows.

use vstd::prelude::*;

use crate::details::{
    basic, bitrate_text, count_kind, detail_rows, field, format_rows, frame_rate_text, in_order,
    keys_of, kind_of, shown_value, spaced, stream_parts, stream_rows, tag_rows, titled, Row,
};
use crate::fixed::{parsed, Fixed};
use crate::json::JsonView;
use crate::number::digits;
use crate::surface_laws::ends;
use crate::text::{joined, lemma_find, lemma_find_is, lowered, trimmed};
use crate::text_laws::{blank, law_blank_texts};

verus! {

/// A label of the basic alphabet begins with a capital and goes on in lower case, a
/// space where an underscore was, and is as long as it came.
pub proof fn law_shape_of_a_label(key: Seq<char>, i: int)
    requires
        basic(key),
        0 <= i < key.len(),
    ensures
        titled(key).len() == key.len(),
        key[i] == '_' ==> titled(key)[i] == ' ',
        i > 0 && 'A' <= key[i] <= 'Z' ==> titled(key)[i] as int == key[i] as int + 32,
        i > 0 && key[i] != '_' && !('A' <= key[i] <= 'Z') ==> titled(key)[i] == key[i],
        i == 0 && 'a' <= key[i] <= 'z' ==> titled(key)[i] as int == key[i] as int - 32,
        i == 0 && key[i] != '_' && !('a' <= key[i] <= 'z') ==> titled(key)[i] == key[i],
{
    let s = spaced(key);
    assert forall|k: int| 0 <= k < s.len() implies (#[trigger] s[k] as u32) < 128 by {
        assert((key[k] as u32) < 128);
    }
    assert(basic(s));
    let low = lowered(s);
    if 'A' <= key[i] <= 'Z' {
        assert(((s[i] as u8) + 32) as char as int == s[i] as int + 32);
        assert(low[i] as int == key[i] as int + 32);
        if i == 0 {
            assert(((low[i] as u8) - 32) as char as int == low[i] as int - 32);
        }
    } else {
        assert(low[i] == s[i]);
        if 'a' <= key[i] <= 'z' {
            assert(((low[i] as u8) - 32) as char as int == low[i] as int - 32);
        }
    }
}

/// A text is shown without the white space around it, if anything is left; a number
/// as it is written; a truth value by its word; and nothing else is shown.
pub proof fn law_values_as_shown(s: Seq<char>)
    ensures
        shown_value(JsonView::Text(s)) == (if blank(s) {
            None
        } else {
            Some(trimmed(s))
        }),
        shown_value(JsonView::Number(s)) == Some(s),
        shown_value(JsonView::Bool(true)) == Some("true"@),
        shown_value(JsonView::Bool(false)) == Some("false"@),
        shown_value(JsonView::Null) is None,
        forall|items: Seq<JsonView>| #[trigger] shown_value(JsonView::Array(items)) is None,
{
    law_blank_texts(s);
}

/// A bit rate is told in millions, thousands or single bits, by its size; what is no
/// number is told as it is.
pub proof fn law_units_of_a_bit_rate(s: Seq<char>)
    ensures
        parsed(s) is None ==> bitrate_text(s) == s,
        parsed(s) matches Some(Fixed::Nanos(n)) ==> {
            &&& n >= 1_000_000_000_000_000 ==> ends(bitrate_text(s), " Mb/s"@)
            &&& 1_000_000_000_000 <= n < 1_000_000_000_000_000 ==> ends(bitrate_text(s), " kb/s"@)
            &&& n < 1_000_000_000_000 ==> ends(bitrate_text(s), " b/s"@)
        },
{
    if parsed(s) is Some && parsed(s)->0 is Nanos {
        let n = parsed(s)->0->Nanos_0;
        let t = bitrate_text(s);
        if n >= 1_000_000_000_000_000 {
            assert(t.skip(t.len() - " Mb/s"@.len()) =~= " Mb/s"@);
        } else if n >= 1_000_000_000_000 {
            assert(t.skip(t.len() - " kb/s"@.len()) =~= " kb/s"@);
        } else {
            assert(t.skip(t.len() - " b/s"@.len()) =~= " b/s"@);
        }
    }
}

/// A frame rate is a ratio of two numbers, neither of them nothing; anything else is
/// no frame rate.
pub proof fn law_frame_rates(num: Seq<char>, den: Seq<char>)
    requires
        !num.contains('/'),
    ensures
        frame_rate_text(num) is None,
        parsed(num) is None || parsed(den) is None ==> frame_rate_text(num + "/"@ + den) is None,
        parsed(num) == Some(Fixed::Nanos(0)) && parsed(den) is Some && parsed(den)->0 is Nanos
            ==> frame_rate_text(num + "/"@ + den) is None,
        parsed(den) == Some(Fixed::Nanos(0)) ==> frame_rate_text(num + "/"@ + den) is None,
        parsed(num) is Some && parsed(num)->0 is Nanos && parsed(den) is Some && parsed(den)->0
            is Nanos && parsed(num)->0 != Fixed::Nanos(0) && parsed(den)->0 != Fixed::Nanos(0)
            ==> frame_rate_text(num + "/"@ + den) is Some,
{
    reveal_strlit("/");
    let s = num + "/"@ + den;
    lemma_find(num, '/');
    assert forall|i: int| 0 <= i < num.len() implies s[i] != '/' by {
        assert(num.contains(num[i]));
        assert(s[i] == num[i]);
    }
    assert(s[num.len() as int] == '/');
    lemma_find_is(s, '/', num.len() as int);
    assert(s.take(num.len() as int) =~= num);
    assert(s.skip(num.len() as int + 1) =~= den);
}

/// The rows begin with the container's: its name, then its bit rate, each where it
/// is known; then come its tags, and then the streams.
pub proof fn law_rows_of_a_document(
    doc: JsonView,
    format: JsonView,
    tags: JsonView,
    list: JsonView,
    streams: Seq<JsonView>,
    name: Seq<char>,
    rate: Seq<char>,
)
    requires
        doc.get("format"@) == Some(format),
        format.get("tags"@) == Some(tags),
        doc.get("streams"@) == Some(list),
        list.array() == Some(streams),
        field(format, "format_long_name"@) == Some(name),
        field(format, "bit_rate"@) == Some(rate),
    ensures
        detail_rows(doc) == seq![("Container"@, name), ("Bit rate"@, bitrate_text(rate))]
            + tag_rows(tags, in_order(keys_of(tags))) + stream_rows(streams),
{
    assert(seq![("Container"@, name)] + seq![("Bit rate"@, bitrate_text(rate))] =~= seq![
        ("Container"@, name),
        ("Bit rate"@, bitrate_text(rate)),
    ]);
}

/// What a document does not hold has no rows.
pub proof fn law_missing_rows(doc: JsonView, format: JsonView)
    ensures
        doc.get("format"@) is None && doc.get("streams"@) is None ==> detail_rows(doc).len() == 0,
        doc.get("format"@) == Some(format) && doc.get("streams"@) is None ==> detail_rows(doc)
            == format_rows(format),
        field(format, "format_long_name"@) is None && field(format, "bit_rate"@) is None
            && format.get("tags"@) is None ==> format_rows(format).len() == 0,
{
    assert(format_rows(format) + Seq::<Row>::empty() =~= format_rows(format));
}

/// Each tag that can be shown has a row, under its label, in the order of the keys.
pub proof fn law_rows_of_tags(tags: JsonView, keys: Seq<Seq<char>>, key: Seq<char>)
    ensures
        field(tags, key) is None ==> tag_rows(tags, keys.push(key)) == tag_rows(tags, keys),
        field(tags, key) is Some ==> tag_rows(tags, keys.push(key)) == tag_rows(tags, keys).push(
            (titled(key), field(tags, key)->0),
        ),
        tag_rows(tags, Seq::empty()).len() == 0,
{
    assert(keys.push(key).drop_last() =~= keys);
    let had = tag_rows(tags, keys);
    assert(had + Seq::<Row>::empty() =~= had);
    if field(tags, key) is Some {
        assert(had + seq![(titled(key), field(tags, key)->0)] =~= had.push(
            (titled(key), field(tags, key)->0),
        ));
    }
}

/// A stream is called by its kind and by how many of that kind there are up to it;
/// one of which nothing is known has no row, but counts.
pub proof fn law_rows_of_streams(streams: Seq<JsonView>, stream: JsonView)
    ensures
        ({
            let kind = kind_of(stream);
            let told = joined(stream_parts(stream), " · "@);
            let rows = stream_rows(streams.push(stream));
            &&& blank(told) ==> rows == stream_rows(streams)
            &&& !blank(told) ==> rows == stream_rows(streams).push(
                (titled(kind) + " "@ + digits(count_kind(streams, kind) + 1), trimmed(told)),
            )
            &&& count_kind(streams.push(stream), kind) == count_kind(streams, kind) + 1
        }),
        forall|other: Seq<char>|
            other != kind_of(stream) ==> #[trigger] count_kind(streams.push(stream), other)
                == count_kind(streams, other),
        count_kind(Seq::empty(), kind_of(stream)) == 0,
{
    let all = streams.push(stream);
    let told = joined(stream_parts(stream), " · "@);
    law_blank_texts(told);
    assert(all.drop_last() =~= streams);
    assert(all.last() == stream);
    let had = stream_rows(streams);
    let kind = kind_of(stream);
    let label = titled(kind) + " "@ + digits(count_kind(streams, kind) + 1);
    assert(had + Seq::<Row>::empty() =~= had);
    assert(had + seq![(label, trimmed(told))] =~= had.push((label, trimmed(told))));
}

/// A stream's kind is what it says, or just a stream.
pub proof fn law_kinds_of_streams(stream: JsonView)
    ensures
        field(stream, "codec_type"@) is Some ==> kind_of(stream) == field(
            stream,
            "codec_type"@,
        )->0,
        field(stream, "codec_type"@) is None ==> kind_of(stream) == "stream"@,
{
}

/// A picture is told by its codec, its size, its frame rate and its bit rate.
pub proof fn law_parts_of_a_picture(
    stream: JsonView,
    codec: Seq<char>,
    w: Seq<char>,
    h: Seq<char>,
    ratio: Seq<char>,
    fps: Seq<char>,
    rate: Seq<char>,
)
    requires
        field(stream, "codec_name"@) == Some(codec),
        field(stream, "width"@) == Some(w),
        field(stream, "height"@) == Some(h),
        field(stream, "avg_frame_rate"@) == Some(ratio),
        frame_rate_text(ratio) == Some(fps),
        field(stream, "sample_rate"@) is None,
        field(stream, "channel_layout"@) is None,
        field(stream, "channels"@) is None,
        field(stream, "bit_rate"@) == Some(rate),
    ensures
        stream_parts(stream) == seq![codec, w + "×"@ + h, fps + " fps"@, bitrate_text(rate)],
{
    assert(stream_parts(stream) =~= seq![
        codec,
        w + "×"@ + h,
        fps + " fps"@,
        bitrate_text(rate),
    ]);
}

/// A sound is told by its codec, its sample rate, its channels and its bit rate; the
/// channels by their layout, or by their number where there is none.
pub proof fn law_parts_of_a_sound(
    stream: JsonView,
    codec: Seq<char>,
    hertz: Seq<char>,
    layout: Seq<char>,
    channels: Seq<char>,
    rate: Seq<char>,
)
    requires
        field(stream, "codec_name"@) == Some(codec),
        field(stream, "width"@) is None || field(stream, "height"@) is None,
        field(stream, "avg_frame_rate"@) is None,
        field(stream, "sample_rate"@) == Some(hertz),
        field(stream, "channels"@) == Some(channels),
        field(stream, "bit_rate"@) == Some(rate),
    ensures
        field(stream, "channel_layout"@) == Some(layout) ==> stream_parts(stream) == seq![
            codec,
            hertz + " Hz"@,
            layout,
            bitrate_text(rate),
        ],
        field(stream, "channel_layout"@) is None ==> stream_parts(stream) == seq![
            codec,
            hertz + " Hz"@,
            channels + " ch"@,
            bitrate_text(rate),
        ],
{
    if field(stream, "channel_layout"@) == Some(layout) {
        assert(stream_parts(stream) =~= seq![codec, hertz + " Hz"@, layout, bitrate_text(rate)]);
    }
    if field(stream, "channel_layout"@) is None {
        assert(stream_parts(stream) =~= seq![
            codec,
            hertz + " Hz"@,
            channels + " ch"@,
            bitrate_text(rate),
        ]);
    }
}

/// A stream that says nothing of itself has no parts.
pub proof fn law_silent_streams(stream: JsonView)
    requires
        field(stream, "codec_name"@) is None,
        field(stream, "width"@) is None || field(stream, "height"@) is None,
        field(stream, "avg_frame_rate"@) is None,
        field(stream, "sample_rate"@) is None,
        field(stream, "channel_layout"@) is None,
        field(stream, "channels"@) is None,
        field(stream, "bit_rate"@) is None,
    ensures
        stream_parts(stream).len() == 0,
{
}

} // verus!
