use audioadapter_buffers::direct::SequentialSliceOfVecs;
use ogg::reading::PacketReader;
use rubato::audioadapter::Adapter;
use rubato::Async;
use rubato::FixedAsync;
use rubato::Resampler;
use rubato::SincInterpolationParameters;
use rubato::SincInterpolationType;
use rubato::WindowFunction;
use spotisub::headers::opus_head_packet;
use spotisub::headers::opus_tags_packet;
use spotisub::headers::vendor_bytes;
use spotisub::opus::OggOpusStreamer;
use spotisub::pipeline::AudioPipeline;
use spotisub::pipeline::StereoChunk;
use spotisub::pipeline::CHUNK_SIZE;
use std::io::Cursor;

struct Transcoder {
    pipeline: AudioPipeline,
    resampler: Async<f32>,
    frames_encoded: u32,
}

fn new_transcoder(serial: u32) -> Transcoder {
    let params = SincInterpolationParameters {
        sinc_len: 64,
        f_cutoff: Some(0.95),
        interpolation: SincInterpolationType::Linear,
        oversampling_factor: 128,
        window: WindowFunction::BlackmanHarris2,
    };
    let resampler =
        Async::<f32>::new_sinc(48000.0 / 44100.0, 2.0, &params, CHUNK_SIZE, 2, FixedAsync::Input).unwrap();
    Transcoder {
        pipeline: AudioPipeline::with_encoder(OggOpusStreamer::with_serial(serial)),
        resampler,
        frames_encoded: 0,
    }
}

// Stands in for the Opus encoder: one short packet per frame, made of the
// frame's number and a sum over its samples.
fn stand_in_packet(number: u32, frame: &[i16]) -> Vec<u8> {
    assert_eq!(frame.len(), 1920);
    let sum = frame.iter().fold(0u32, |acc, s| acc.wrapping_mul(31).wrapping_add(*s as u16 as u32));
    let mut packet = number.to_le_bytes().to_vec();
    packet.extend_from_slice(&sum.to_le_bytes());
    packet
}

fn resample(t: &mut Transcoder, chunk: &StereoChunk) -> Vec<i16> {
    let left: Vec<f32> = chunk.left.iter().map(|s| *s as f32 * (1.0 / 32768.0)).collect();
    let right: Vec<f32> = chunk.right.iter().map(|s| *s as f32 * (1.0 / 32768.0)).collect();
    let input = vec![left, right];
    let adapter = SequentialSliceOfVecs::new(&input, 2, CHUNK_SIZE).unwrap();
    let resampled = t.resampler.process(&adapter, None).unwrap();
    let frames = resampled.frames();
    let mut interleaved = Vec::with_capacity(frames * 2);
    for i in 0..frames {
        let l = resampled.read_sample(0, i).unwrap_or(0.0);
        let r = resampled.read_sample(1, i).unwrap_or(0.0);
        interleaved.push((l * 32767.0).clamp(-32768.0, 32767.0) as i16);
        interleaved.push((r * 32767.0).clamp(-32768.0, 32767.0) as i16);
    }
    interleaved
}

fn encode(t: &mut Transcoder, chunk: &StereoChunk) -> Vec<u8> {
    let interleaved = resample(t, chunk);
    let frames = t.pipeline.encoder.encode_chunk(&interleaved);
    let mut batch = Vec::new();
    for frame in &frames {
        batch.push(stand_in_packet(t.frames_encoded, frame));
        t.frames_encoded += 1;
    }
    t.pipeline.encoder.write_packets(&batch).unwrap()
}

fn process(t: &mut Transcoder, pcm: &[i16]) -> Vec<u8> {
    let mut out = Vec::new();
    for chunk in t.pipeline.process(pcm) {
        out.extend(encode(t, &chunk));
    }
    out
}

fn flush(t: &mut Transcoder) -> Vec<u8> {
    let mut out = Vec::new();
    if let Some(chunk) = t.pipeline.flush() {
        out.extend(encode(t, &chunk));
    }
    let last = match t.pipeline.encoder.flush() {
        Some(frame) => {
            let packet = stand_in_packet(t.frames_encoded, &frame);
            t.frames_encoded += 1;
            Some(packet)
        }
        None => None,
    };
    out.extend(t.pipeline.encoder.finish(last).unwrap());
    out
}

fn sine_tone(seconds: f64) -> Vec<i16> {
    let frames = (seconds * 44100.0) as usize;
    let mut pcm = Vec::with_capacity(frames * 2);
    for i in 0..frames {
        let phase = 2.0 * std::f64::consts::PI * 440.0 * (i as f64) / 44100.0;
        let sample = (phase.sin() * 16000.0) as i16;
        pcm.push(sample);
        pcm.push(sample);
    }
    pcm
}

fn transcode(serial: u32, deliveries: &[&[i16]]) -> Vec<u8> {
    let mut t = new_transcoder(serial);
    let mut out = t.pipeline.encoder.header_bytes().unwrap();
    for delivery in deliveries {
        out.extend(process(&mut t, delivery));
    }
    out.extend(flush(&mut t));
    out
}

#[test]
fn a_sine_tone_in_three_deliveries_makes_one_well_formed_stream() {
    let pcm = sine_tone(2.5);
    assert_eq!(pcm.len(), 220500);
    let serial = 0x1234_5678;
    let stream = transcode(serial, &[&pcm[..500], &pcm[500..1500], &pcm[1500..]]);

    let mut reader = PacketReader::new(Cursor::new(stream));
    let head = reader.read_packet_expected().unwrap();
    assert_eq!(head.data, opus_head_packet());
    assert!(head.first_in_stream());
    assert_eq!(head.absgp_page(), 0);
    let tags = reader.read_packet_expected().unwrap();
    assert_eq!(tags.data, opus_tags_packet(&vendor_bytes()));
    assert_eq!(tags.absgp_page(), 0);

    let mut audio: u64 = 0;
    let mut ends = 0;
    let mut granule = 0;
    while let Some(packet) = reader.read_packet().unwrap() {
        assert_ne!(packet.data, opus_head_packet());
        assert_ne!(packet.data, opus_tags_packet(&vendor_bytes()));
        assert_eq!(packet.stream_serial(), serial);
        assert_eq!(&packet.data[..4], &(audio as u32).to_le_bytes());
        audio += 1;
        assert!(packet.absgp_page() >= granule);
        granule = packet.absgp_page();
        if packet.last_in_page() {
            assert_eq!(granule, 960 * audio);
        }
        if packet.last_in_stream() {
            ends += 1;
        }
    }
    assert_eq!(ends, 1);
    // 2.5 s at 48 kHz are 125 frames of 20 ms; padding may add one.
    assert!((124..=126).contains(&audio), "{audio} audio packets");
    assert_eq!(granule, 960 * audio);
}

#[test]
fn the_stream_does_not_depend_on_how_the_pcm_was_delivered() {
    let pcm = sine_tone(0.7);
    let serial = 77;
    let at_once = transcode(serial, &[&pcm]);
    let in_three = transcode(serial, &[&pcm[..500], &pcm[500..1500], &pcm[1500..]]);
    assert_eq!(in_three, at_once);
    let pieces: Vec<&[i16]> = pcm.chunks(98).collect();
    let in_pieces = transcode(serial, &pieces);
    assert_eq!(in_pieces, at_once);
    let pieces: Vec<&[i16]> = pcm.chunks(333).collect();
    let in_odd_pieces = transcode(serial, &pieces);
    assert_eq!(in_odd_pieces, at_once);
}

#[test]
fn a_stream_that_ends_on_a_frame_boundary_still_has_one_end_marker() {
    let serial = 5;
    let mut stream = OggOpusStreamer::with_serial(serial);
    let mut out = stream.header_bytes().unwrap();
    let frames = stream.encode_chunk(&vec![100i16; 1920 * 3]);
    assert_eq!(frames.len(), 3);
    let batch: Vec<Vec<u8>> = frames.iter().enumerate().map(|(i, f)| stand_in_packet(i as u32, f)).collect();
    out.extend(stream.write_packets(&batch).unwrap());
    assert!(stream.flush().is_none());
    out.extend(stream.finish(None).unwrap());

    let mut reader = PacketReader::new(Cursor::new(out));
    let mut packets = Vec::new();
    while let Some(packet) = reader.read_packet().unwrap() {
        packets.push(packet);
    }
    assert_eq!(packets.len(), 6);
    let ends = packets.iter().filter(|p| p.last_in_stream()).count();
    assert_eq!(ends, 1);
    assert!(packets[5].last_in_stream());
    assert!(packets[5].data.is_empty());
    assert_eq!(packets[5].absgp_page(), 2880);
}
