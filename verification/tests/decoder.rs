use musicsloth::audio::decoder::{
    after_decode, after_read, centre_sample, format_full_scale, landing_position_ms, seek_time,
    select_track, AudioDecoder, DecodeDecision, DecodeEvent, DecoderError, PacketEvent,
    ReadDecision, SampleFormat, SeekTime, DEFAULT_CHANNELS, DEFAULT_SAMPLE_RATE,
};

const INTEGER_FORMATS: [SampleFormat; 8] = [
    SampleFormat::U8,
    SampleFormat::U16,
    SampleFormat::U24,
    SampleFormat::U32,
    SampleFormat::S8,
    SampleFormat::S16,
    SampleFormat::S24,
    SampleFormat::S32,
];

fn amplitude(format: SampleFormat, raw: i64) -> f32 {
    centre_sample(format, raw).unwrap() as f32 / format_full_scale(format) as f32
}

#[test]
fn full_scale_is_half_the_range_of_a_format() {
    assert_eq!(format_full_scale(SampleFormat::U8), 128);
    assert_eq!(format_full_scale(SampleFormat::S8), 128);
    assert_eq!(format_full_scale(SampleFormat::U16), 32_768);
    assert_eq!(format_full_scale(SampleFormat::S16), 32_768);
    assert_eq!(format_full_scale(SampleFormat::U24), 8_388_608);
    assert_eq!(format_full_scale(SampleFormat::S24), 8_388_608);
    assert_eq!(format_full_scale(SampleFormat::U32), 2_147_483_648);
    assert_eq!(format_full_scale(SampleFormat::S32), 2_147_483_648);
}

#[test]
fn extremes_of_every_integer_format_map_to_the_unit_range() {
    for format in INTEGER_FORMATS {
        let scale = format_full_scale(format);
        let unsigned = matches!(
            format,
            SampleFormat::U8 | SampleFormat::U16 | SampleFormat::U24 | SampleFormat::U32
        );
        let (min, mid, max) = if unsigned { (0, scale, 2 * scale - 1) } else { (-scale, 0, scale - 1) };
        assert_eq!(centre_sample(format, min), Some(-scale));
        assert_eq!(centre_sample(format, mid), Some(0));
        assert_eq!(centre_sample(format, max), Some(scale - 1));
        assert_eq!(centre_sample(format, min - 1), None);
        assert_eq!(centre_sample(format, max + 1), None);
        assert_eq!(amplitude(format, min), -1.0);
        assert_eq!(amplitude(format, mid), 0.0);
        let top = amplitude(format, max);
        assert!(top <= 1.0 && 1.0 - top <= 1.0 / scale as f32);
    }
}

#[test]
fn sixteen_bit_extremes() {
    assert_eq!(amplitude(SampleFormat::S16, 32_767), 32_767.0 / 32_768.0);
    assert_eq!(amplitude(SampleFormat::S16, -32_768), -1.0);
    assert_eq!(amplitude(SampleFormat::U16, 65_535), 32_767.0 / 32_768.0);
    assert_eq!(amplitude(SampleFormat::U16, 0), -1.0);
    assert_eq!(amplitude(SampleFormat::U8, 192), 0.5);
    assert_eq!(amplitude(SampleFormat::S8, -64), -0.5);
}

#[test]
fn floating_formats_are_not_centred() {
    assert_eq!(centre_sample(SampleFormat::F32, 0), None);
    assert_eq!(centre_sample(SampleFormat::F64, 1), None);
    assert_eq!(format_full_scale(SampleFormat::F32), 1);
    assert_eq!(format_full_scale(SampleFormat::F64), 1);
}

#[test]
fn the_first_track_with_a_codec_is_selected() {
    assert_eq!(select_track(&[false]), Ok(0));
    assert_eq!(select_track(&[true, true, false, false]), Ok(2));
    assert_eq!(select_track(&[true, false, true]), Ok(1));
    assert_eq!(select_track(&[]), Err(DecoderError::NoAudioTrack));
    assert_eq!(select_track(&[true, true]), Err(DecoderError::NoAudioTrack));
}

#[test]
fn stream_description_fills_in_defaults() {
    let decoder = AudioDecoder::open(3, None, None, None);
    assert_eq!(decoder.track_id(), 3);
    assert_eq!(decoder.sample_rate(), 44_100);
    assert_eq!(decoder.channels(), 2);
    assert_eq!(decoder.duration_ms(), None);
    assert_eq!(DEFAULT_SAMPLE_RATE, 44_100);
    assert_eq!(DEFAULT_CHANNELS, 2);
    let decoder = AudioDecoder::open(0, Some(48_000), Some(6), Some(48_000 * 180));
    assert_eq!(decoder.sample_rate(), 48_000);
    assert_eq!(decoder.channels(), 6);
    assert_eq!(decoder.duration_ms(), Some(180_000));
}

#[test]
fn duration_follows_from_the_frame_count() {
    assert_eq!(AudioDecoder::open(0, Some(44_100), Some(2), Some(7_938_000)).duration_ms(), Some(180_000));
    assert_eq!(AudioDecoder::open(0, Some(44_100), Some(2), Some(44_099)).duration_ms(), Some(999));
    assert_eq!(AudioDecoder::open(0, None, Some(2), Some(44_100)).duration_ms(), Some(1_000));
    assert_eq!(AudioDecoder::open(0, Some(44_100), Some(2), Some(0)).duration_ms(), Some(0));
    assert_eq!(AudioDecoder::open(0, Some(0), Some(2), Some(0)).duration_ms(), Some(0));
    assert_eq!(AudioDecoder::open(0, Some(0), Some(2), Some(5)).duration_ms(), Some(i64::MAX));
    assert_eq!(AudioDecoder::open(0, Some(1), Some(2), Some(u64::MAX)).duration_ms(), Some(i64::MAX));
}

#[test]
fn seek_targets_are_split_into_seconds_and_thousandths() {
    assert_eq!(seek_time(0), SeekTime { seconds: 0, millis: 0 });
    assert_eq!(seek_time(61_250), SeekTime { seconds: 61, millis: 250 });
    assert_eq!(seek_time(999), SeekTime { seconds: 0, millis: 999 });
    assert_eq!(seek_time(i64::MAX), SeekTime { seconds: 9_223_372_036_854_775, millis: 807 });
    assert_eq!(seek_time(-1_250), SeekTime { seconds: 0, millis: -250 });
    assert_eq!(seek_time(-3_000), SeekTime { seconds: 0, millis: 0 });
    let decoder = AudioDecoder::open(0, Some(44_100), Some(2), None);
    assert_eq!(decoder.seek(61_250), SeekTime { seconds: 61, millis: 250 });
}

#[test]
fn seek_landing_is_converted_from_the_timestamp() {
    assert_eq!(landing_position_ms(0, 44_100), 0);
    assert_eq!(landing_position_ms(44_100, 44_100), 1_000);
    assert_eq!(landing_position_ms(2_640_575, 44_100), 59_876);
    assert_eq!(landing_position_ms(7, 0), u64::MAX);
    assert_eq!(landing_position_ms(0, 0), 0);
    assert_eq!(landing_position_ms(u64::MAX, 1), u64::MAX);
    let decoder = AudioDecoder::open(0, Some(48_000), Some(2), None);
    assert_eq!(decoder.seek_landed(96_000), 2_000);
}

#[test]
fn the_packet_loop_skips_what_it_can_and_fails_on_the_rest() {
    assert_eq!(after_read(1, PacketEvent::Packet { track_id: 1 }), ReadDecision::Decode);
    assert_eq!(after_read(1, PacketEvent::Packet { track_id: 2 }), ReadDecision::Skip);
    assert_eq!(after_read(1, PacketEvent::EndOfStream), ReadDecision::Finish);
    assert_eq!(after_read(1, PacketEvent::ResetRequired), ReadDecision::Reset);
    assert_eq!(after_read(1, PacketEvent::Failed), ReadDecision::Fail(DecoderError::ReadFailed));
    assert_eq!(after_decode(DecodeEvent::Decoded), DecodeDecision::Emit);
    assert_eq!(after_decode(DecodeEvent::Malformed), DecodeDecision::Skip);
    assert_eq!(after_decode(DecodeEvent::Failed), DecodeDecision::Fail(DecoderError::DecodeFailed));
    let decoder = AudioDecoder::open(5, None, None, None);
    assert_eq!(decoder.decode_next(PacketEvent::Packet { track_id: 5 }), ReadDecision::Decode);
    assert_eq!(decoder.decode_next(PacketEvent::Packet { track_id: 0 }), ReadDecision::Skip);
}

#[test]
fn every_error_has_its_words() {
    assert_eq!(DecoderError::IoError.message(), "Failed to open file");
    assert_eq!(DecoderError::UnsupportedFormat.message(), "Failed to probe file format");
    assert_eq!(DecoderError::NoAudioTrack.message(), "No audio track found");
    assert_eq!(DecoderError::ReadFailed.message(), "Failed to read packet");
    assert_eq!(DecoderError::DecodeFailed.message(), "Decode failed");
    assert_eq!(DecoderError::SeekFailed.message(), "Seek failed");
}

#[test]
fn planes_are_interleaved_frame_by_frame() {
    let left = [1.0f32, 2.0, 3.0];
    let right = [-1.0f32, -2.0, -3.0];
    let planes: [&[f32]; 2] = [&left, &right];
    assert_eq!(AudioDecoder::interleave(&planes, 3), vec![1.0, -1.0, 2.0, -2.0, 3.0, -3.0]);
    assert_eq!(AudioDecoder::interleave(&planes, 2), vec![1.0, -1.0, 2.0, -2.0]);
    assert_eq!(AudioDecoder::interleave(&planes, 0), Vec::<f32>::new());
    let none: [&[f32]; 0] = [];
    assert_eq!(AudioDecoder::interleave(&none, 3), Vec::<f32>::new());
    let mono: [&[f32]; 1] = [&left];
    assert_eq!(AudioDecoder::interleave(&mono, 3), vec![1.0, 2.0, 3.0]);
}

#[test]
fn planes_are_converted_while_interleaved() {
    let left = [i16::MIN, 0, i16::MAX];
    let right = [16_384i16, -16_384, 0];
    let planes: [&[i16]; 2] = [&left, &right];
    let scale = format_full_scale(SampleFormat::S16) as f32;
    let samples = AudioDecoder::interleave_convert(&planes, 3, |s: i16| {
        centre_sample(SampleFormat::S16, s as i64).unwrap() as f32 / scale
    });
    assert_eq!(samples, vec![-1.0, 0.5, 0.0, -0.5, 32_767.0 / 32_768.0, 0.0]);
    let bytes = [0u8, 128, 255];
    let planes: [&[u8]; 1] = [&bytes];
    let samples = AudioDecoder::interleave_convert(&planes, 3, |s: u8| {
        centre_sample(SampleFormat::U8, s as i64).unwrap() as f32 / 128.0
    });
    assert_eq!(samples, vec![-1.0, 0.0, 127.0 / 128.0]);
    let none = AudioDecoder::interleave_convert(&planes, 0, |s: u8| s as f32);
    assert!(none.is_empty());
}
