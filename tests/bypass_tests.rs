use rustpass_dpi::bypass::{
    fake_payload, resolve_position, BypassOptions, DesyncOp, DesyncType, SplitPosition, DEFAULT_TTL,
    FAKE_TLS_LEN,
};

fn sp(pos: i32, desync_type: DesyncType) -> SplitPosition {
    SplitPosition { pos, desync_type }
}

fn options(fake_ttl: u32, plan: Vec<SplitPosition>) -> BypassOptions {
    let mut b = BypassOptions::new(fake_ttl);
    b.append_options(plan);
    b
}

/// The chunk bytes each data operation stands for, concatenated.
fn payload(ops: &[DesyncOp], buf: &[u8]) -> Vec<u8> {
    let mut out = Vec::new();
    for op in ops {
        match *op {
            DesyncOp::Write { start, end } | DesyncOp::Fake { start, end } => {
                out.extend_from_slice(&buf[start..end])
            }
            DesyncOp::WriteOob { start, end, .. } => out.extend_from_slice(&buf[start..end]),
            _ => {}
        }
    }
    out
}

/// The bytes each operation puts on the wire, concatenated.
fn wire(ops: &[DesyncOp], buf: &[u8]) -> Vec<u8> {
    let mut out = Vec::new();
    for op in ops {
        match *op {
            DesyncOp::Write { start, end } => out.extend_from_slice(&buf[start..end]),
            DesyncOp::WriteOob { start, end, marker } => {
                out.extend_from_slice(&buf[start..end]);
                out.push(marker);
            }
            DesyncOp::Fake { start, end } => out.extend_from_slice(&fake_payload(end - start)),
            _ => {}
        }
    }
    out
}

#[test]
fn new_options_are_empty() {
    let b = BypassOptions::new(6);
    assert!(!b.at_least_one_option());
    assert_eq!(b.fake_ttl, 6);
    assert_eq!(b.oob_data, 97);
    assert!(b.timeout.is_none());
}

#[test]
fn merge_puts_non_negative_before_negative() {
    let b = options(6, vec![sp(5, DesyncType::Split), sp(-2, DesyncType::Fake)]);
    assert_eq!(b.split_positions, vec![sp(5, DesyncType::Split), sp(-2, DesyncType::Fake)]);
    assert!(b.at_least_one_option());
}

#[test]
fn merge_negative_given_first_still_goes_last() {
    let b = options(6, vec![sp(-2, DesyncType::Fake), sp(5, DesyncType::Split)]);
    assert_eq!(b.split_positions, vec![sp(5, DesyncType::Split), sp(-2, DesyncType::Fake)]);
}

#[test]
fn merge_sorts_each_sign_ascending_and_is_stable() {
    let b = options(
        6,
        vec![
            sp(-1, DesyncType::Split),
            sp(10, DesyncType::Split),
            sp(2, DesyncType::Fake),
            sp(-5, DesyncType::Disorder),
            sp(2, DesyncType::Split),
            sp(0, DesyncType::Splitoob),
        ],
    );
    assert_eq!(
        b.split_positions,
        vec![
            sp(0, DesyncType::Splitoob),
            sp(2, DesyncType::Fake),
            sp(2, DesyncType::Split),
            sp(10, DesyncType::Split),
            sp(-5, DesyncType::Disorder),
            sp(-1, DesyncType::Split),
        ]
    );
}

#[test]
fn merge_into_existing_plan_resorts_everything() {
    let mut b = options(6, vec![sp(3, DesyncType::Split), sp(-1, DesyncType::Split)]);
    b.append_options(vec![sp(1, DesyncType::Disorder), sp(-3, DesyncType::Fake), sp(3, DesyncType::Fake)]);
    assert_eq!(
        b.split_positions,
        vec![
            sp(1, DesyncType::Disorder),
            sp(3, DesyncType::Split),
            sp(3, DesyncType::Fake),
            sp(-3, DesyncType::Fake),
            sp(-1, DesyncType::Split),
        ]
    );
}

#[test]
fn negative_offset_resolves_from_end() {
    assert_eq!(resolve_position(-1, 100), 99);
    assert_eq!(resolve_position(-100, 100), 0);
    assert_eq!(resolve_position(-101, 100), -1);
    assert_eq!(resolve_position(7, 100), 7);
    assert_eq!(resolve_position(i32::MIN, 0), -2147483648);
}

#[test]
fn empty_plan_writes_chunk_once() {
    let b = BypassOptions::new(6);
    assert_eq!(b.desync_ops(10), vec![DesyncOp::Write { start: 0, end: 10 }]);
    assert_eq!(b.desync_ops(0), vec![]);
}

#[test]
fn split_cuts_chunk_in_two_writes() {
    let b = options(6, vec![sp(2, DesyncType::Split)]);
    assert_eq!(
        b.desync_ops(10),
        vec![DesyncOp::Write { start: 0, end: 2 }, DesyncOp::Write { start: 2, end: 10 }]
    );
}

#[test]
fn disorder_writes_first_part_at_ttl_one() {
    let b = options(6, vec![sp(3, DesyncType::Disorder)]);
    assert_eq!(
        b.desync_ops(10),
        vec![
            DesyncOp::SetTtl { ttl: 1 },
            DesyncOp::Write { start: 0, end: 3 },
            DesyncOp::SetTtl { ttl: DEFAULT_TTL },
            DesyncOp::Write { start: 3, end: 10 },
        ]
    );
}

#[test]
fn splitoob_sends_urgent_data_with_marker() {
    let mut b = options(6, vec![sp(3, DesyncType::Splitoob)]);
    b.oob_data = 0x42;
    assert_eq!(
        b.desync_ops(10),
        vec![
            DesyncOp::WriteOob { start: 0, end: 3, marker: 0x42 },
            DesyncOp::Write { start: 3, end: 10 },
        ]
    );
}

#[test]
fn fake_sends_decoy_at_fake_ttl() {
    let b = options(5, vec![sp(4, DesyncType::Fake)]);
    assert_eq!(
        b.desync_ops(10),
        vec![
            DesyncOp::SetTtl { ttl: 5 },
            DesyncOp::Fake { start: 0, end: 4 },
            DesyncOp::SetTtl { ttl: 64 },
            DesyncOp::Write { start: 4, end: 10 },
        ]
    );
}

#[test]
fn disoob_fails_at_its_entry() {
    let b = options(6, vec![sp(2, DesyncType::Split), sp(4, DesyncType::Disoob), sp(6, DesyncType::Split)]);
    assert_eq!(
        b.desync_ops(10),
        vec![DesyncOp::Write { start: 0, end: 2 }, DesyncOp::Unsupported]
    );
}

#[test]
fn disoob_past_the_end_is_not_reached() {
    let b = options(6, vec![sp(20, DesyncType::Disoob)]);
    assert_eq!(b.desync_ops(10), vec![DesyncOp::Write { start: 0, end: 10 }]);
}

#[test]
fn offset_past_end_writes_tail_and_stops() {
    let b = options(6, vec![sp(3, DesyncType::Split), sp(10, DesyncType::Split), sp(-1, DesyncType::Fake)]);
    assert_eq!(
        b.desync_ops(10),
        vec![DesyncOp::Write { start: 0, end: 3 }, DesyncOp::Write { start: 3, end: 10 }]
    );
}

#[test]
fn negative_offset_counts_from_end_of_chunk() {
    let b = options(6, vec![sp(-1, DesyncType::Split)]);
    assert_eq!(
        b.desync_ops(100),
        vec![DesyncOp::Write { start: 0, end: 99 }, DesyncOp::Write { start: 99, end: 100 }]
    );
    assert_eq!(
        b.desync_ops(5),
        vec![DesyncOp::Write { start: 0, end: 4 }, DesyncOp::Write { start: 4, end: 5 }]
    );
}

#[test]
fn offset_behind_cursor_is_clamped_forward() {
    let b = options(6, vec![sp(8, DesyncType::Split), sp(-5, DesyncType::Split)]);
    assert_eq!(
        b.desync_ops(10),
        vec![
            DesyncOp::Write { start: 0, end: 8 },
            DesyncOp::Write { start: 8, end: 8 },
            DesyncOp::Write { start: 8, end: 10 },
        ]
    );
    let c = options(6, vec![sp(-200, DesyncType::Split)]);
    assert_eq!(
        c.desync_ops(100),
        vec![DesyncOp::Write { start: 0, end: 0 }, DesyncOp::Write { start: 0, end: 100 }]
    );
}

#[test]
fn ops_carry_the_chunk_exactly() {
    let buf: Vec<u8> = (0u8..40).collect();
    let b = options(
        7,
        vec![
            sp(1, DesyncType::Split),
            sp(3, DesyncType::Disorder),
            sp(6, DesyncType::Splitoob),
            sp(9, DesyncType::Fake),
            sp(-4, DesyncType::Split),
        ],
    );
    let ops = b.desync_ops(30);
    assert_eq!(payload(&ops, &buf), buf[..30].to_vec());
    let w = wire(&ops, &buf);
    let mut expected = buf[..6].to_vec();
    expected.push(97);
    expected.extend_from_slice(&[22, 3, 1]);
    expected.extend_from_slice(&buf[9..30]);
    assert_eq!(w, expected);
}

#[test]
fn fake_payload_is_template_prefix() {
    assert_eq!(fake_payload(0), Vec::<u8>::new());
    assert_eq!(fake_payload(6), vec![22, 3, 1, 2, 0, 1]);
    let long = fake_payload(FAKE_TLS_LEN + 10);
    assert_eq!(long.len(), 527);
    assert_eq!(long[0], 22);
    assert!(long[FAKE_TLS_LEN..].iter().all(|b| *b == 0));
}
