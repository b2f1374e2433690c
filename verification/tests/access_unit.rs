//! Conversion of encoder output to access units, and the bounded queue behind it.

use godrinking::access_unit::{
    hevc_is_irap, hevc_nal_unit_type, is_baseline_profile, is_high_profile, sps_profile_level_id,
    AvccAnnexBConverter, AvccError, EncodedAccessUnit, HevcAnnexBConverter, H264_PROFILE_LEVEL_ID,
};
use godrinking::annexb::{
    annexb_contains_b_slice, annexb_nal_types, annexb_nals, annexb_starts_with_sps_pps_idr,
    pps_is_cavlc_only, remove_emulation_prevention, slice_is_b, BitReader,
};
use godrinking::nv12::bgra_to_nv12;
use godrinking::queue::{AccessUnitPushResult, AccessUnitQueue, ACCESS_UNIT_QUEUE_CAPACITY};

fn avcc(nals: &[&[u8]]) -> Vec<u8> {
    nals.iter()
        .flat_map(|nal| {
            (nal.len() as u32)
                .to_be_bytes()
                .into_iter()
                .chain(nal.iter().copied())
        })
        .collect()
}

#[test]
fn converts_length_prefixed_nals_to_annex_b() {
    let mut converter = AvccAnnexBConverter::default();
    let unit = converter
        .convert(&avcc(&[&[0x41, 1, 2]]), 90_000, false)
        .expect("valid AVCC");
    assert_eq!(unit.data, vec![0, 0, 0, 1, 0x41, 1, 2]);
    assert_eq!(unit.timestamp_90khz, 90_000);
    assert!(!unit.keyframe);
    assert_eq!(unit.profile_level_id, None);
}

#[test]
fn caches_and_injects_sps_pps_before_a_later_idr() {
    let mut converter = AvccAnnexBConverter::default();
    converter
        .convert(&avcc(&[&[0x67, 0x42, 0xe0, 0x2a, 1], &[0x68, 2]]), 0, false)
        .expect("parameter sets");
    let unit = converter
        .convert(&avcc(&[&[0x65, 3]]), 3_000, true)
        .expect("IDR");
    assert_eq!(
        unit.data,
        vec![0, 0, 0, 1, 0x67, 0x42, 0xe0, 0x2a, 1, 0, 0, 0, 1, 0x68, 2, 0, 0, 0, 1, 0x65, 3,]
    );
    assert!(unit.keyframe);
    assert_eq!(
        unit.profile_level_id.as_deref(),
        Some(H264_PROFILE_LEVEL_ID)
    );
}

#[test]
fn injects_the_missing_parameter_set_before_an_idr() {
    let mut converter = AvccAnnexBConverter::default();
    converter
        .convert(&avcc(&[&[0x67, 0x42, 0xe0, 0x2a, 1], &[0x68, 2]]), 0, false)
        .expect("parameter sets");
    let unit = converter
        .convert(
            &avcc(&[&[0x67, 0x42, 0xe0, 0x2a, 9], &[0x65, 3]]),
            3_000,
            true,
        )
        .expect("IDR");
    assert_eq!(
        unit.data,
        vec![0, 0, 0, 1, 0x67, 0x42, 0xe0, 0x2a, 9, 0, 0, 0, 1, 0x68, 2, 0, 0, 0, 1, 0x65, 3,]
    );
}

#[test]
fn rejects_truncated_avcc() {
    let mut converter = AvccAnnexBConverter::default();
    assert_eq!(
        converter.convert(&[0, 0, 0], 0, false),
        Err(AvccError::TruncatedLength)
    );
    assert_eq!(
        converter.convert(&[0, 0, 0, 4, 1], 0, false),
        Err(AvccError::TruncatedNal)
    );
}

#[test]
fn refuses_an_idr_without_both_parameter_sets() {
    let mut converter = AvccAnnexBConverter::default();
    assert_eq!(
        converter.convert(&avcc(&[&[0x65, 3]]), 0, true),
        Err(AvccError::MissingParameterSets)
    );
}

#[test]
fn accepts_constrained_baseline_profiles_from_videotoolbox() {
    let mut converter = AvccAnnexBConverter::default();
    converter
        .convert(&avcc(&[&[0x67, 0x42, 0xc0, 0x2a], &[0x68, 2]]), 0, false)
        .expect("parameter sets");
    let unit = converter
        .convert(&avcc(&[&[0x65, 3]]), 3_000, true)
        .expect("constrained baseline IDR");
    assert_eq!(unit.profile_level_id.as_deref(), Some("42c02a"));
}

#[test]
fn high_profile_converter_accepts_high_sps() {
    let mut converter = AvccAnnexBConverter::high_profile();
    converter
        .convert(&avcc(&[&[0x67, 0x64, 0x00, 0x2a], &[0x68, 2]]), 0, false)
        .expect("parameter sets");
    let unit = converter
        .convert(&avcc(&[&[0x65, 3]]), 3_000, true)
        .expect("high IDR");
    assert_eq!(unit.profile_level_id.as_deref(), Some("64002a"));
}

#[test]
fn baseline_converter_still_rejects_high_sps() {
    let mut converter = AvccAnnexBConverter::default();
    converter
        .convert(&avcc(&[&[0x67, 0x64, 0x00, 0x2a], &[0x68, 2]]), 0, false)
        .expect("parameter sets");
    assert_eq!(
        converter.convert(&avcc(&[&[0x65, 3]]), 3_000, true),
        Err(AvccError::IncompatibleProfileLevel)
    );
}

#[test]
fn bgra_to_nv12_converts_solid_colors() {
    // 2x2 solid red (BGRA 0,0,255) in BT.709 limited: Y is about 63, V high, U low.
    let red = vec![0_u8, 0, 255, 255].repeat(4);
    let nv12 = bgra_to_nv12(&red, 2, 2).expect("2x2 converts");
    assert_eq!(nv12.len(), 6);
    assert!(
        nv12[0] >= 60 && nv12[0] <= 68,
        "red luma {} (want BT.709 ~63, not BT.601 ~81)",
        nv12[0]
    );
    assert_eq!(&nv12[0..4], &[nv12[0]; 4]);
    assert!(nv12[5] > 220, "red Cr {}", nv12[5]);
    assert!(nv12[4] < 120, "red Cb {}", nv12[4]);
    // 2x2 solid black: Y=16, UV=128.
    let black = vec![0_u8, 0, 0, 255].repeat(4);
    let nv12 = bgra_to_nv12(&black, 2, 2).expect("black converts");
    assert_eq!(&nv12[..], &[16, 16, 16, 16, 128, 128]);
    // Odd sizes and short buffers are rejected.
    assert_eq!(bgra_to_nv12(&red, 3, 2), None);
    assert_eq!(bgra_to_nv12(&[0_u8; 8], 2, 2), None);
}

#[test]
fn rejects_an_sps_profile_that_does_not_match_the_negotiated_codec() {
    let mut converter = AvccAnnexBConverter::default();
    converter
        .convert(&avcc(&[&[0x67, 0x64, 0x00, 0x1f], &[0x68, 2]]), 0, false)
        .expect("parameter sets");
    assert_eq!(
        converter.convert(&avcc(&[&[0x65, 3]]), 3_000, true),
        Err(AvccError::IncompatibleProfileLevel)
    );
}

#[test]
fn queue_drops_a_partial_gop_and_recovers_at_idr() {
    let mut queue = AccessUnitQueue::bounded(2);
    let p = |value: u8| EncodedAccessUnit {
        data: vec![value],
        timestamp_90khz: value as u64,
        keyframe: false,
        profile_level_id: None,
    };
    assert_eq!(queue.try_push(p(1)), AccessUnitPushResult::Enqueued);
    assert_eq!(queue.try_push(p(2)), AccessUnitPushResult::Enqueued);
    assert_eq!(
        queue.try_push(p(3)),
        AccessUnitPushResult::DroppedUntilKeyframe
    );
    assert_eq!(
        queue.try_push(p(4)),
        AccessUnitPushResult::DroppedUntilKeyframe
    );
    assert_eq!(
        queue.try_push(EncodedAccessUnit {
            data: vec![5],
            timestamp_90khz: 5,
            keyframe: true,
            profile_level_id: Some(H264_PROFILE_LEVEL_ID.into()),
        }),
        AccessUnitPushResult::Enqueued
    );
    assert_eq!(queue.try_recv().unwrap().data, vec![5]);
}

#[test]
fn sps_profile_predicates_cover_baseline_high_and_unknown() {
    // 42* = Baseline/CBP (session contract); 64* = High (rejected in a
    // Baseline session); anything else or malformed is unknown.
    for id in ["42e02a", "42c02a", "42e01f", "42C02A", "42001f"] {
        assert!(is_baseline_profile(id), "{id} must read as Baseline");
        assert!(!is_high_profile(id), "{id} must not read as High");
    }
    for id in ["64002a", "640c2a", "640033", "64C02A"] {
        assert!(is_high_profile(id), "{id} must read as High");
        assert!(!is_baseline_profile(id), "{id} must not read as Baseline");
    }
    for id in ["4d002a", "4d4028", "", "42e02", "42e02a00", "64"] {
        assert!(!is_baseline_profile(id), "{id:?} must not read as Baseline");
        assert!(!is_high_profile(id), "{id:?} must not read as High");
    }
}

#[test]
fn converter_output_opens_with_sps_pps_idr() {
    let mut converter = AvccAnnexBConverter::default();
    converter
        .convert(&avcc(&[&[0x67, 0x42, 0xe0, 0x2a, 1], &[0x68, 2]]), 0, false)
        .expect("parameter sets");
    let unit = converter
        .convert(&avcc(&[&[0x65, 3]]), 3_000, true)
        .expect("IDR");
    assert_eq!(annexb_nal_types(&unit.data), vec![7, 8, 5]);
    assert!(annexb_starts_with_sps_pps_idr(&unit.data));
    // A bare P-frame carries no parameter sets and must not claim the
    // first-segment contract.
    let mut plain = AvccAnnexBConverter::default();
    let p = plain
        .convert(&avcc(&[&[0x41, 0x9a, 0x22]]), 0, false)
        .expect("P slice");
    assert_eq!(annexb_nal_types(&p.data), vec![1]);
    assert!(!annexb_starts_with_sps_pps_idr(&p.data));
}

#[test]
fn baseline_stream_has_no_b_slices_and_pps_is_cavlc_only() {
    // Synthetic slice payloads (after the NAL header byte):
    // P: first_mb=0 ue(0)="1", slice_type=0 ue(0)="1" -> 0xC0.
    // B: first_mb=0 "1", slice_type=1 ue(1)="010" -> 0xA0.
    // I: first_mb=0 "1", slice_type=2 ue(2)="011" -> 0xB0.
    let p_nal = [0x41u8, 0xC0];
    let b_nal = [0x41u8, 0xA0];
    let i_nal = [0x65u8, 0xB0];
    let annexb = |nals: &[&[u8]]| {
        nals.iter()
            .flat_map(|nal| [0, 0, 0, 1].into_iter().chain(nal.iter().copied()))
            .collect::<Vec<u8>>()
    };
    assert!(!annexb_contains_b_slice(&annexb(&[&p_nal])));
    assert!(!annexb_contains_b_slice(&annexb(&[&i_nal])));
    assert!(annexb_contains_b_slice(&annexb(&[&b_nal])));
    assert!(annexb_contains_b_slice(&annexb(&[&p_nal, &b_nal])));
    // PPS: pic_id=0 "1", seq_id=0 "1", entropy_coding_mode_flag.
    // 0xC0 = flag 0 (CAVLC, Baseline contract); 0xE0 = flag 1 (CABAC).
    assert!(pps_is_cavlc_only(&[0x68, 0xC0]));
    assert!(!pps_is_cavlc_only(&[0x68, 0xE0]));
    assert!(!pps_is_cavlc_only(&[]));
}

#[test]
fn bounded_16_queue_recovers_at_idr_without_touching_other_links() {
    assert_eq!(ACCESS_UNIT_QUEUE_CAPACITY, 16);
    // Two per-viewer links: overflowing link A must not disturb link B.
    let mut link_a = AccessUnitQueue::bounded(ACCESS_UNIT_QUEUE_CAPACITY);
    let mut link_b = AccessUnitQueue::bounded(ACCESS_UNIT_QUEUE_CAPACITY);
    let unit = |seq: u8, keyframe: bool| EncodedAccessUnit {
        data: vec![seq],
        timestamp_90khz: u64::from(seq) * 1_500,
        keyframe,
        profile_level_id: Some(H264_PROFILE_LEVEL_ID.into()),
    };
    // Link A holds a full GOP (IDR + 15 P-frames = capacity); link B
    // holds a partial GOP so its head is observable after A's overflow.
    for seq in 0..16u8 {
        let keyframe = seq == 0;
        assert_eq!(
            link_a.try_push(unit(seq, keyframe)),
            AccessUnitPushResult::Enqueued
        );
    }
    assert_eq!(link_b.try_push(unit(0, true)), AccessUnitPushResult::Enqueued);
    assert_eq!(link_b.try_push(unit(1, false)), AccessUnitPushResult::Enqueued);
    // Overflow link A with P-frames: whole GOP dropped, recovering.
    for seq in 16..20u8 {
        assert_eq!(
            link_a.try_push(unit(seq, false)),
            AccessUnitPushResult::DroppedUntilKeyframe,
            "overflow P-frame {seq} must drop until IDR"
        );
    }
    // Link B still enqueues while A is recovering (per-link recovery).
    assert_eq!(link_b.try_push(unit(2, false)), AccessUnitPushResult::Enqueued);
    // An IDR within N=4 frames heals link A; only the IDR survives.
    assert_eq!(link_a.try_push(unit(20, true)), AccessUnitPushResult::Enqueued);
    assert_eq!(link_a.try_recv().unwrap().data, vec![20]);
    // Link B drains its original GOP head first: unaffected by A.
    assert_eq!(link_b.try_recv().unwrap().data, vec![0]);
    assert_eq!(link_b.try_recv().unwrap().data, vec![1]);
}

// Two-byte HEVC headers: (type << 1) | layer bits, temporal_id_plus1 = 1.
const VPS: &[u8] = &[0x40, 0x01, 0x0c];
const SPS: &[u8] = &[0x42, 0x01, 0x0d];
const PPS: &[u8] = &[0x44, 0x01, 0x0e];
const IDR: &[u8] = &[0x26, 0x01, 0x11];
const CRA: &[u8] = &[0x2a, 0x01, 0x12];

#[test]
fn hevc_injects_vps_sps_pps_before_irap() {
    let mut converter = HevcAnnexBConverter::default();
    converter
        .convert(&avcc(&[VPS, SPS, PPS]), 0, false)
        .expect("sets");
    let unit = converter.convert(&avcc(&[IDR]), 3_000, true).expect("irap");
    assert!(unit.keyframe);
    assert_eq!(
        unit.data,
        vec![
            0, 0, 0, 1, 0x40, 0x01, 0x0c, 0, 0, 0, 1, 0x42, 0x01, 0x0d, 0, 0, 0, 1, 0x44, 0x01,
            0x0e, 0, 0, 0, 1, 0x26, 0x01, 0x11,
        ]
    );
}

#[test]
fn hevc_refuses_irap_without_parameter_sets() {
    let mut converter = HevcAnnexBConverter::default();
    assert_eq!(
        converter.convert(&avcc(&[IDR]), 0, true),
        Err(AvccError::MissingParameterSets)
    );
}

#[test]
fn hevc_detects_cra_as_keyframe() {
    let mut converter = HevcAnnexBConverter::default();
    converter
        .convert(&avcc(&[VPS, SPS, PPS]), 0, false)
        .expect("sets");
    let unit = converter.convert(&avcc(&[CRA]), 3_000, false).expect("cra");
    assert!(unit.keyframe);
}

#[test]
fn a_framed_stream_falls_apart_into_its_nals() {
    let stream = [0u8, 0, 0, 1, 0x67, 1, 2, 0, 0, 1, 0x68, 3, 0, 0, 0, 1, 0x65, 4];
    let nals = annexb_nals(&stream);
    assert_eq!(nals.len(), 3);
    assert_eq!(nals[0], &[0x67u8, 1, 2][..]);
    assert_eq!(nals[1], &[0x68u8, 3][..]);
    assert_eq!(nals[2], &[0x65u8, 4][..]);
    assert!(annexb_nals(&[1, 2, 3]).is_empty());
}

#[test]
fn emulation_prevention_bytes_are_dropped() {
    assert_eq!(
        remove_emulation_prevention(&[1, 0, 0, 3, 1, 0, 0, 3, 0]),
        vec![1, 0, 0, 1, 0, 0, 0]
    );
    // A payload without the pattern is kept as it is.
    assert_eq!(remove_emulation_prevention(&[0, 3, 0, 3]), vec![0, 3, 0, 3]);
}

#[test]
fn exponential_golomb_codes_are_read_bit_by_bit() {
    // 1 | 010 | 011 | 00100 | then the end of the data.
    let data = [0b1010_0110u8, 0b0100_0000];
    let mut reader = BitReader::new(&data);
    assert_eq!(reader.read_ue(), Some(0));
    assert_eq!(reader.read_ue(), Some(1));
    assert_eq!(reader.read_ue(), Some(2));
    assert_eq!(reader.read_ue(), Some(3));
    assert_eq!(reader.read_bit(), Some(false));
    let mut empty = BitReader::new(&[]);
    assert_eq!(empty.read_bit(), None);
    assert_eq!(empty.read_ue(), None);
    assert!(slice_is_b(&[0xA0]));
    assert!(!slice_is_b(&[0xC0]));
}

#[test]
fn profile_and_level_are_read_from_the_parameter_set() {
    assert_eq!(
        sps_profile_level_id(&[0x67, 0x42, 0xe0, 0x2a]).as_deref(),
        Some("42e02a")
    );
    assert_eq!(sps_profile_level_id(&[0x67, 0x42, 0xe0]), None);
    assert_eq!(sps_profile_level_id(&[0x67]), None);
    assert_eq!(hevc_nal_unit_type(IDR), Some(19));
    assert_eq!(hevc_nal_unit_type(&[]), None);
    assert!(hevc_is_irap(16) && hevc_is_irap(21) && hevc_is_irap(23));
    assert!(!hevc_is_irap(15) && !hevc_is_irap(24));
}

#[test]
fn conversion_errors_say_what_is_wrong() {
    assert_eq!(AvccError::TruncatedLength.message(), "truncated AVCC NAL length");
    assert_eq!(AvccError::TruncatedNal.message(), "truncated AVCC NAL payload");
    assert_eq!(AvccError::Empty.message(), "empty AVCC access unit");
    assert_eq!(
        AvccError::MissingParameterSets.message(),
        "IDR access unit is missing SPS or PPS"
    );
    assert_eq!(
        AvccError::IncompatibleProfileLevel.message(),
        "H.264 SPS profile-level-id is incompatible with 1080p60"
    );
    let mut converter = AvccAnnexBConverter::default();
    assert_eq!(converter.convert(&[], 0, false), Err(AvccError::Empty));
}

#[test]
fn a_delta_unit_reaches_the_stream_unchanged() {
    let mut converter = AvccAnnexBConverter::default();
    converter
        .convert(&avcc(&[&[0x67, 0x42, 0xe0, 0x2a, 1], &[0x68, 2]]), 0, false)
        .expect("parameter sets");
    let unit = converter
        .convert(&avcc(&[&[0x41, 7, 7], &[0x41, 8]]), 6_000, false)
        .expect("delta");
    assert_eq!(unit.data, vec![0, 0, 0, 1, 0x41, 7, 7, 0, 0, 0, 1, 0x41, 8]);
    assert!(!unit.keyframe);
}

#[test]
fn grey_pixels_carry_no_color() {
    for level in [0u8, 1, 77, 128, 200, 255] {
        let grey = vec![level, level, level, 255].repeat(4);
        let nv12 = bgra_to_nv12(&grey, 2, 2).expect("grey converts");
        assert!(nv12[4] == 127 || nv12[4] == 128);
        assert_eq!(nv12[5], 128);
        assert!(nv12[0] >= 16 && nv12[0] <= 235);
    }
    let white = vec![255u8; 16];
    assert_eq!(bgra_to_nv12(&white, 2, 2).expect("white")[0], 235);
}

#[test]
fn a_closed_queue_takes_and_gives_nothing() {
    let mut queue = AccessUnitQueue::bounded(4);
    let unit = |keyframe| EncodedAccessUnit {
        data: vec![1],
        timestamp_90khz: 0,
        keyframe,
        profile_level_id: None,
    };
    assert_eq!(queue.try_push(unit(true)), AccessUnitPushResult::Enqueued);
    queue.close();
    assert!(queue.is_closed());
    assert_eq!(queue.try_push(unit(true)), AccessUnitPushResult::Closed);
    assert_eq!(queue.len(), 0);
    assert_eq!(queue.try_recv(), None);
}

#[test]
fn a_queue_never_holds_more_than_its_bound() {
    let mut queue = AccessUnitQueue::bounded(3);
    for step in 0..40u8 {
        let _ = queue.try_push(EncodedAccessUnit {
            data: vec![step],
            timestamp_90khz: 0,
            keyframe: step % 7 == 0,
            profile_level_id: None,
        });
        assert!(queue.len() <= 3);
    }
}
