//! Sample formats: wire values, widths and what the graph can carry.

use sonicbrew::alsa::format::{to_core_sample_format, AlsaFormat};
use sonicbrew::port::SampleFormat;

#[test]
fn s16le_wire_value_is_2() {
    assert_eq!(AlsaFormat::S16Le.to_alsa_value(), 2);
}

#[test]
fn s24le_wire_value_is_6() {
    assert_eq!(AlsaFormat::S24Le.to_alsa_value(), 6);
}

#[test]
fn s24_3le_wire_value_is_32() {
    assert_eq!(AlsaFormat::S24_3Le.to_alsa_value(), 32);
}

#[test]
fn s32le_wire_value_is_10() {
    assert_eq!(AlsaFormat::S32Le.to_alsa_value(), 10);
}

#[test]
fn float32le_wire_value_is_14() {
    assert_eq!(AlsaFormat::Float32Le.to_alsa_value(), 14);
}

#[test]
fn float64le_wire_value_is_15() {
    assert_eq!(AlsaFormat::Float64Le.to_alsa_value(), 15);
}

#[test]
fn s16le_core_mapping_is_i16() {
    assert_eq!(
        to_core_sample_format(AlsaFormat::S16Le),
        Some(SampleFormat::I16)
    );
}

#[test]
fn s32le_core_mapping_is_f32_lossy() {
    // S32Le → F32 is documented lossy (24-bit mantissa can't hold full i32 range).
    assert_eq!(
        to_core_sample_format(AlsaFormat::S32Le),
        Some(SampleFormat::F32)
    );
}

#[test]
fn float32le_core_mapping_is_f32() {
    assert_eq!(
        to_core_sample_format(AlsaFormat::Float32Le),
        Some(SampleFormat::F32)
    );
}

#[test]
fn float64le_core_mapping_is_f64() {
    assert_eq!(
        to_core_sample_format(AlsaFormat::Float64Le),
        Some(SampleFormat::F64)
    );
}

#[test]
fn s24le_has_no_core_mapping() {
    assert_eq!(to_core_sample_format(AlsaFormat::S24Le), None);
}

#[test]
fn s24_3le_has_no_core_mapping() {
    assert_eq!(to_core_sample_format(AlsaFormat::S24_3Le), None);
}

#[test]
fn all_formats_have_distinct_wire_values() {
    let formats = [
        AlsaFormat::S16Le,
        AlsaFormat::S24Le,
        AlsaFormat::S24_3Le,
        AlsaFormat::S32Le,
        AlsaFormat::Float32Le,
        AlsaFormat::Float64Le,
    ];
    let mut values: Vec<u32> = formats.iter().map(|f| f.to_alsa_value()).collect();
    values.sort();
    values.dedup();
    assert_eq!(values.len(), formats.len(), "wire values must be unique");
}

#[test]
fn s24le_container_wider_than_physical() {
    // S24Le: 3 bytes physical, 4 bytes container (LSB-aligned padding).
    assert_eq!(AlsaFormat::S24Le.physical_width_bytes(), 3);
    assert_eq!(AlsaFormat::S24Le.container_width_bytes(), 4);
}

#[test]
fn s24_3le_container_equals_physical() {
    // S24_3Le: 3 bytes physical, 3 bytes container (packed, no padding).
    assert_eq!(AlsaFormat::S24_3Le.physical_width_bytes(), 3);
    assert_eq!(AlsaFormat::S24_3Le.container_width_bytes(), 3);
}

#[test]
fn float64le_widest_format() {
    assert_eq!(AlsaFormat::Float64Le.physical_width_bytes(), 8);
    assert_eq!(AlsaFormat::Float64Le.container_width_bytes(), 8);
}

#[test]
fn alsa_format_values_and_widths() {
    // snd_pcm_format_t wire values.
    assert_eq!(AlsaFormat::S16Le.to_alsa_value(), 2);
    assert_eq!(AlsaFormat::S24Le.to_alsa_value(), 6);
    assert_eq!(AlsaFormat::S24_3Le.to_alsa_value(), 32);
    assert_eq!(AlsaFormat::S32Le.to_alsa_value(), 10);
    assert_eq!(AlsaFormat::Float32Le.to_alsa_value(), 14);
    assert_eq!(AlsaFormat::Float64Le.to_alsa_value(), 15);

    // Physical widths: the bytes of actual audio data.
    assert_eq!(AlsaFormat::S16Le.physical_width_bytes(), 2);
    assert_eq!(AlsaFormat::S24Le.physical_width_bytes(), 3);
    assert_eq!(AlsaFormat::S24_3Le.physical_width_bytes(), 3);
    assert_eq!(AlsaFormat::S32Le.physical_width_bytes(), 4);
    assert_eq!(AlsaFormat::Float32Le.physical_width_bytes(), 4);
    assert_eq!(AlsaFormat::Float64Le.physical_width_bytes(), 8);

    // Container widths: storage slot including padding.
    assert_eq!(AlsaFormat::S16Le.container_width_bytes(), 2);
    // The headline distinction: S24Le pads to a 4-byte container while
    // the packed S24_3Le stays at 3.
    assert_eq!(AlsaFormat::S24Le.container_width_bytes(), 4);
    assert_eq!(AlsaFormat::S24_3Le.container_width_bytes(), 3);
    assert_eq!(AlsaFormat::S32Le.container_width_bytes(), 4);
    assert_eq!(AlsaFormat::Float32Le.container_width_bytes(), 4);
    assert_eq!(AlsaFormat::Float64Le.container_width_bytes(), 8);
}

#[test]
fn core_format_mapping() {
    assert_eq!(
        to_core_sample_format(AlsaFormat::S16Le),
        Some(SampleFormat::I16)
    );
    assert_eq!(
        to_core_sample_format(AlsaFormat::Float32Le),
        Some(SampleFormat::F32)
    );
    assert_eq!(
        to_core_sample_format(AlsaFormat::Float64Le),
        Some(SampleFormat::F64)
    );
    // S32Le → F32 (documented lossy).
    assert_eq!(
        to_core_sample_format(AlsaFormat::S32Le),
        Some(SampleFormat::F32)
    );
    // 24-bit has no core representation.
    assert_eq!(to_core_sample_format(AlsaFormat::S24Le), None);
    assert_eq!(to_core_sample_format(AlsaFormat::S24_3Le), None);
}

#[test]
fn all_format_variants_no_panic() {
    let formats = [
        AlsaFormat::S16Le,
        AlsaFormat::S24Le,
        AlsaFormat::S24_3Le,
        AlsaFormat::S32Le,
        AlsaFormat::Float32Le,
        AlsaFormat::Float64Le,
    ];
    for f in formats {
        // to_alsa_value, physical_width_bytes, container_width_bytes must never panic.
        let _ = f.to_alsa_value();
        let _ = f.physical_width_bytes();
        let _ = f.container_width_bytes();
        // to_core_sample_format must never panic.
        let _ = to_core_sample_format(f);
    }
}
