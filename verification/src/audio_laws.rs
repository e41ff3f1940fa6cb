//! What holds of every audio frame: the samples can be read back from it.
use crate::base64;
use crate::json::Json;
use crate::wire;
use vstd::prelude::*;

verus! {

/// The 6-bit number that a base64 symbol stands for, -1 for any other character.
pub open spec fn number_of(symbol: char) -> int {
    if 'A' <= symbol <= 'Z' {
        symbol as int - 65
    } else if 'a' <= symbol <= 'z' {
        symbol as int - 97 + 26
    } else if '0' <= symbol <= '9' {
        symbol as int - 48 + 52
    } else if symbol == '+' {
        62
    } else if symbol == '/' {
        63
    } else {
        -1
    }
}

/// Reads padded base64, strictly: `None` where a symbol is not of the alphabet, a group is cut
/// short, padding stands before the end, or bits that padding leaves over are set.
pub open spec fn decoded(text: Seq<char>) -> Option<Seq<u8>>
    decreases text.len(),
{
    if text.len() == 0 {
        Some(Seq::empty())
    } else if text.len() < 4 || number_of(text[0]) < 0 || number_of(text[1]) < 0 {
        None
    } else {
        let two = number_of(text[0]) * 262144 + number_of(text[1]) * 4096;
        let three = two + number_of(text[2]) * 64;
        let four = three + number_of(text[3]);
        if text[2] == '=' && text[3] == '=' && text.len() == 4 {
            if two % 65536 == 0 {
                Some(seq![(two / 65536) as u8])
            } else {
                None
            }
        } else if number_of(text[2]) < 0 {
            None
        } else if text[3] == '=' && text.len() == 4 {
            if three % 256 == 0 {
                Some(seq![(three / 65536) as u8, ((three / 256) % 256) as u8])
            } else {
                None
            }
        } else if number_of(text[3]) < 0 {
            None
        } else {
            match decoded(text.skip(4)) {
                Some(rest) => Some(
                    seq![
                        (four / 65536) as u8,
                        ((four / 256) % 256) as u8,
                        (four % 256) as u8,
                    ] + rest,
                ),
                None => None,
            }
        }
    }
}

proof fn lemma_symbol_reads_back(six: int)
    requires
        0 <= six < 64,
    ensures
        number_of(base64::symbol(six)) == six,
        base64::symbol(six) != '=',
{
}

proof fn lemma_group_reads_back(group: int)
    requires
        0 <= group < 16777216,
    ensures
        0 <= base64::sextet(group, 0) < 64,
        0 <= base64::sextet(group, 1) < 64,
        0 <= base64::sextet(group, 2) < 64,
        0 <= base64::sextet(group, 3) < 64,
        base64::sextet(group, 0) * 262144 + base64::sextet(group, 1) * 4096 + base64::sextet(
            group,
            2,
        ) * 64 + base64::sextet(group, 3) == group,
        group % 256 == 0 ==> base64::sextet(group, 3) == 0,
        group % 65536 == 0 ==> base64::sextet(group, 2) == 0,
{
    assert(group / 4096 == 64 * (group / 262144) + (group / 4096) % 64);
    assert(group / 64 == 64 * (group / 4096) + (group / 64) % 64);
}

/// The first characters of a group stand for the numbers that make it up.
proof fn lemma_group_in_text(text: Seq<char>, group: int, count: int)
    requires
        0 <= group < 16777216,
        2 <= count <= 4 <= text.len(),
        forall|i: int|
            0 <= i < count ==> #[trigger] text[i] == base64::symbol(base64::sextet(group, i)),
        count < 4 ==> group % 256 == 0,
        count < 3 ==> group % 65536 == 0,
    ensures
        forall|i: int| 0 <= i < count ==> 0 <= number_of(#[trigger] text[i]) < 64 && text[i] != '=',
        group == number_of(text[0]) * 262144 + number_of(text[1]) * 4096 + (if count > 2 {
            number_of(text[2]) * 64
        } else {
            0
        }) + (if count > 3 {
            number_of(text[3])
        } else {
            0
        }),
{
    lemma_group_reads_back(group);
    assert(text[0] == base64::symbol(base64::sextet(group, 0)));
    assert(text[1] == base64::symbol(base64::sextet(group, 1)));
    lemma_symbol_reads_back(base64::sextet(group, 0));
    lemma_symbol_reads_back(base64::sextet(group, 1));
    lemma_symbol_reads_back(base64::sextet(group, 2));
    lemma_symbol_reads_back(base64::sextet(group, 3));
    if count > 2 {
        assert(text[2] == base64::symbol(base64::sextet(group, 2)));
    }
    if count > 3 {
        assert(text[3] == base64::symbol(base64::sextet(group, 3)));
    }
}

proof fn lemma_bytes_of_group(first: u8, second: u8, third: u8)
    ensures
        ({
            let group = first * 65536 + second * 256 + third;
            &&& 0 <= group < 16777216
            &&& group / 65536 == first
            &&& (group / 256) % 256 == second
            &&& group % 256 == third
            &&& second == 0 && third == 0 ==> group % 65536 == 0
        }),
{
}

proof fn lemma_full_group_is_read(
    text: Seq<char>,
    first: u8,
    second: u8,
    third: u8,
    rest: Seq<u8>,
)
    requires
        text.len() >= 4,
        forall|i: int|
            0 <= i < 4 ==> #[trigger] text[i] == base64::symbol(
                base64::sextet(first * 65536 + second * 256 + third, i),
            ),
        decoded(text.skip(4)) == Some(rest),
    ensures
        decoded(text) == Some(seq![first, second, third] + rest),
{
    lemma_bytes_of_group(first, second, third);
    lemma_group_in_text(text, first * 65536 + second * 256 + third, 4);
    assert(text[2] != '=' && text[3] != '=');
    assert(number_of(text[0]) >= 0 && number_of(text[1]) >= 0);
}

proof fn lemma_last_two_are_read(text: Seq<char>, first: u8, second: u8)
    requires
        text.len() == 4,
        forall|i: int|
            0 <= i < 3 ==> #[trigger] text[i] == base64::symbol(
                base64::sextet(first * 65536 + second * 256, i),
            ),
        text[3] == '=',
    ensures
        decoded(text) == Some(seq![first, second]),
{
    lemma_bytes_of_group(first, second, 0);
    lemma_group_in_text(text, first * 65536 + second * 256, 3);
    assert(text[2] != '=');
    assert(number_of(text[0]) >= 0 && number_of(text[1]) >= 0);
}

proof fn lemma_last_one_is_read(text: Seq<char>, first: u8)
    requires
        text.len() == 4,
        forall|i: int|
            0 <= i < 2 ==> #[trigger] text[i] == base64::symbol(base64::sextet(first * 65536, i)),
        text[2] == '=',
        text[3] == '=',
    ensures
        decoded(text) == Some(seq![first]),
{
    lemma_bytes_of_group(first, 0, 0);
    lemma_group_in_text(text, first * 65536, 2);
    assert(number_of(text[0]) >= 0 && number_of(text[1]) >= 0);
}

/// What base64 wrote, a strict reader reads back.
pub proof fn law_base64_reads_back(bytes: Seq<u8>)
    ensures
        decoded(base64::encoded(bytes)) == Some(bytes),
    decreases bytes.len(),
{
    let text = base64::encoded(bytes);
    if bytes.len() > 2 {
        law_base64_reads_back(bytes.skip(3));
        assert(text.skip(4) =~= base64::encoded(bytes.skip(3)));
        lemma_full_group_is_read(text, bytes[0], bytes[1], bytes[2], bytes.skip(3));
        assert(seq![bytes[0], bytes[1], bytes[2]] + bytes.skip(3) =~= bytes);
    } else if bytes.len() == 2 {
        lemma_last_two_are_read(text, bytes[0], bytes[1]);
        assert(seq![bytes[0], bytes[1]] =~= bytes);
    } else if bytes.len() == 1 {
        lemma_last_one_is_read(text, bytes[0]);
        assert(seq![bytes[0]] =~= bytes);
    } else {
        assert(bytes =~= Seq::empty());
    }
}

/// Base64 takes four characters for each three bytes begun.
pub proof fn law_base64_length(bytes: Seq<u8>)
    ensures
        base64::encoded(bytes).len() == 4 * ((bytes.len() + 2) / 3),
    decreases bytes.len(),
{
    if bytes.len() > 2 {
        law_base64_length(bytes.skip(3));
    }
}

/// Every sample of an audio frame is there: two bytes for each, in their order, the low one first,
/// which together are its two's complement.
pub proof fn law_samples_read_back(samples: Seq<i16>)
    ensures
        wire::pcm_bytes(samples).len() == 2 * samples.len(),
        forall|i: int|
            0 <= i < samples.len() ==> ({
                let word = wire::pcm_bytes(samples)[2 * i] + 256 * wire::pcm_bytes(samples)[2 * i
                    + 1];
                word == if #[trigger] samples[i] < 0 {
                    samples[i] + 65536
                } else {
                    samples[i] as int
                }
            }),
{
    assert forall|i: int| 0 <= i < samples.len() implies ({
        let word = wire::pcm_bytes(samples)[2 * i] + 256 * wire::pcm_bytes(samples)[2 * i + 1];
        word == if #[trigger] samples[i] < 0 {
            samples[i] + 65536
        } else {
            samples[i] as int
        }
    }) by {
        assert((2 * i) / 2 == i && (2 * i) % 2 == 0);
        assert((2 * i + 1) / 2 == i && (2 * i + 1) % 2 == 1);
    }
}

/// The audio message, member by member: its data is base64 from which each sample can be read
/// back, and it says what the samples are. Nothing else is in it.
pub proof fn law_audio_message(samples: Seq<i16>)
    ensures
        ({
            let message = wire::realtime_input_message(samples);
            let input = message.member("realtime_input"@);
            let audio = input->0.member("audio"@);
            &&& input is Some
            &&& audio is Some
            &&& audio->0.member("mimeType"@) == Some(Json::Text("audio/pcm;rate=16000"@))
            &&& audio->0.member("data"@) matches Some(Json::Text(data)) && decoded(data) == Some(
                wire::pcm_bytes(samples),
            )
            &&& forall|key: Seq<char>| #[trigger]
                message.member(key) is Some ==> key == "realtime_input"@
            &&& forall|key: Seq<char>| #[trigger] input->0.member(key) is Some ==> key == "audio"@
            &&& forall|key: Seq<char>| #[trigger]
                audio->0.member(key) is Some ==> key == "data"@ || key == "mimeType"@
        }),
{
    law_base64_reads_back(wire::pcm_bytes(samples));
    reveal_strlit("data");
    reveal_strlit("mimeType");
    assert("data"@.len() != "mimeType"@.len());
}

/// Two audio frames with the same bytes hold the same samples.
pub proof fn law_bytes_tell_the_samples(one: Seq<i16>, other: Seq<i16>)
    requires
        wire::pcm_bytes(one) == wire::pcm_bytes(other),
    ensures
        one == other,
{
    law_samples_read_back(one);
    law_samples_read_back(other);
    assert forall|i: int| 0 <= i < one.len() implies one[i] == other[i] by {
        let sample = other[i];
    }
    assert(one =~= other);
}

proof fn lemma_message_tells_the_bytes(one: Seq<i16>, other: Seq<i16>)
    requires
        wire::realtime_input_message(one) == wire::realtime_input_message(other),
    ensures
        wire::pcm_bytes(one) == wire::pcm_bytes(other),
{
    law_audio_message(one);
    law_audio_message(other);
}

/// Two audio frames that are sent as the same message hold the same samples.
pub proof fn law_audio_message_loses_nothing(one: Seq<i16>, other: Seq<i16>)
    requires
        wire::realtime_input_message(one) == wire::realtime_input_message(other),
    ensures
        one == other,
{
    lemma_message_tells_the_bytes(one, other);
    law_bytes_tell_the_samples(one, other);
}

} // verus!
