use std::time::Duration;

use rustpass_dpi::bypass::{DesyncType, SplitPosition};
use rustpass_dpi::cmd::{is_udp_opts, split_positions, Cmd, ConfigError, Subcommands, TcpOptions, UdpOptions, BUF_SIZE};
use rustpass_dpi::udp::{UdpBypassHelpData, FAKE_PKT_LEN, UDP_RECV_BUF_SIZE};

fn tcp(disorder: i32, split: Vec<i32>, fake: Vec<i32>) -> TcpOptions {
    TcpOptions {
        proxy_addr: "127.0.0.1:1080".to_string(),
        fake_ttl: 6,
        buf_size: BUF_SIZE,
        timeout: None,
        disorder,
        split,
        disoob: vec![],
        splitoob: vec![],
        fake,
        oob_data: 97,
    }
}

fn udp() -> UdpOptions {
    UdpOptions { fake_ttl: 6, mark: 0x100, nfqueue_num: 200, netns: String::new() }
}

fn sp(pos: i32, desync_type: DesyncType) -> SplitPosition {
    SplitPosition { pos, desync_type }
}

#[test]
fn offsets_listed_in_kind_order() {
    let r = split_positions(3, &vec![2, -1], &vec![7], &vec![4], &vec![-3]);
    assert_eq!(
        r,
        vec![
            sp(3, DesyncType::Disorder),
            sp(2, DesyncType::Split),
            sp(-1, DesyncType::Split),
            sp(7, DesyncType::Disoob),
            sp(4, DesyncType::Splitoob),
            sp(-3, DesyncType::Fake),
        ]
    );
    assert_eq!(split_positions(0, &vec![], &vec![], &vec![], &vec![]), vec![]);
}

#[test]
fn options_build_sorted_plan() {
    let mut t = tcp(3, vec![2, -1, 10], vec![-3]);
    t.fake_ttl = 4;
    t.oob_data = 1;
    t.timeout = Some(Duration::from_secs(2));
    let b = t.bypass_options().unwrap();
    assert_eq!(
        b.split_positions,
        vec![
            sp(2, DesyncType::Split),
            sp(3, DesyncType::Disorder),
            sp(10, DesyncType::Split),
            sp(-3, DesyncType::Fake),
            sp(-1, DesyncType::Split),
        ]
    );
    assert_eq!(b.fake_ttl, 4);
    assert_eq!(b.oob_data, 1);
    assert_eq!(b.timeout, Some(Duration::from_secs(2)));
}

#[test]
fn options_without_offsets_are_rejected() {
    assert_eq!(tcp(0, vec![], vec![]).bypass_options().err(), Some(ConfigError::NoDesyncOptions));
    assert!(tcp(5, vec![], vec![]).bypass_options().is_ok());
}

#[test]
fn tcp_options_found_in_either_position() {
    let a = Subcommands::Tcp { tcp: tcp(1, vec![], vec![]), udp: None };
    assert_eq!(a.tcp_options().unwrap().disorder, 1);
    assert_eq!(a.udp_options().err(), Some(ConfigError::UdpSubcommandNotFound));
    let b = Subcommands::Udp { udp: udp(), tcp: Some(tcp(2, vec![], vec![])) };
    assert_eq!(b.tcp_options().unwrap().disorder, 2);
    assert_eq!(b.udp_options().unwrap().nfqueue_num, 200);
    let c = Subcommands::Udp { udp: udp(), tcp: None };
    assert_eq!(c.tcp_options().err(), Some(ConfigError::TcpSubcommandNotFound));
}

#[test]
fn udp_requested_when_present() {
    assert!(!is_udp_opts(&Subcommands::Tcp { tcp: tcp(1, vec![], vec![]), udp: None }));
    assert!(is_udp_opts(&Subcommands::Tcp { tcp: tcp(1, vec![], vec![]), udp: Some(udp()) }));
    assert!(is_udp_opts(&Subcommands::Udp { udp: udp(), tcp: None }));
    let c = Cmd { cmd: Subcommands::Udp { udp: udp(), tcp: None }, run_app: None };
    assert!(is_udp_opts(&c.cmd));
}

#[test]
fn udp_record_has_zeroed_buffers() {
    let d = UdpBypassHelpData::new::<UDP_RECV_BUF_SIZE>(0x100, 200, 6, 3);
    assert_eq!(d.mark, 0x100);
    assert_eq!(d.queue_num, 200);
    assert_eq!(d.fake_ttl, 6);
    assert_eq!(d.log_level, 3);
    assert_eq!(d.fake_pkt_payload, vec![0u8; FAKE_PKT_LEN]);
    assert_eq!(d.buf.len(), 2048);
    assert!(d.buf.iter().all(|b| *b == 0));
}
