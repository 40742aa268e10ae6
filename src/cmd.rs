//! Command-line configuration as plain data, and the desync settings built
//! from it.
use vstd::prelude::*;
use crate::bypass::{BypassOptions, DesyncType, SplitPosition, is_stable_sort_of};

verus! {

/// Default size of the relay's read buffers.
pub const BUF_SIZE: usize = 16384;

/// Settings of the TCP desync proxy.
#[derive(Clone, Debug)]
pub struct TcpOptions {
    /// Listen address in `ip:port` form.
    pub proxy_addr: String,
    pub fake_ttl: u8,
    pub buf_size: usize,
    /// Bound on the first read from upstream; `None` when disabled.
    pub timeout: Option<std::time::Duration>,
    /// Single disorder offset; 0 leaves it unset.
    pub disorder: i32,
    pub split: Vec<i32>,
    pub disoob: Vec<i32>,
    pub splitoob: Vec<i32>,
    pub fake: Vec<i32>,
    pub oob_data: u8,
}

/// Settings of the UDP bypass engine.
#[derive(Clone, Debug)]
pub struct UdpOptions {
    pub fake_ttl: u8,
    pub mark: i32,
    pub nfqueue_num: u16,
    /// Named network namespace to enter; empty for none.
    pub netns: String,
}

/// The two subcommands, each optionally followed by the other.
#[derive(Clone, Debug)]
pub enum Subcommands {
    Tcp { tcp: TcpOptions, udp: Option<UdpOptions> },
    Udp { udp: UdpOptions, tcp: Option<TcpOptions> },
}

/// The whole command line.
#[derive(Clone, Debug)]
pub struct Cmd {
    pub cmd: Subcommands,
    /// Program to run alongside the bypass.
    pub run_app: Option<String>,
}

#[derive(Clone, Copy, Debug, PartialEq, Eq, Structural)]
pub enum ConfigError {
    TcpSubcommandNotFound,
    UdpSubcommandNotFound,
    /// No desync offset was given, so the desync engine could never run.
    NoDesyncOptions,
}

/// Whether the command line asks for the UDP bypass.
pub fn is_udp_opts(cmd: &Subcommands) -> (r: bool)
    ensures
        r == match cmd {
            Subcommands::Tcp { udp, .. } => udp is Some,
            Subcommands::Udp { .. } => true,
        },
{
    match cmd {
        Subcommands::Tcp { udp, .. } => udp.is_some(),
        Subcommands::Udp { .. } => true,
    }
}

impl Subcommands {
    /// The TCP settings, given first or after the UDP subcommand.
    pub fn tcp_options(&self) -> (r: Result<&TcpOptions, ConfigError>)
        ensures
            match self {
                Subcommands::Tcp { tcp, .. } => r == Ok::<&TcpOptions, ConfigError>(tcp),
                Subcommands::Udp { tcp: Some(t), .. } => r == Ok::<&TcpOptions, ConfigError>(t),
                Subcommands::Udp { tcp: None, .. } => r == Err::<&TcpOptions, ConfigError>(
                    ConfigError::TcpSubcommandNotFound,
                ),
            },
    {
        match self {
            Subcommands::Tcp { tcp, .. } => Ok(tcp),
            Subcommands::Udp { tcp: Some(t), .. } => Ok(t),
            Subcommands::Udp { tcp: None, .. } => Err(ConfigError::TcpSubcommandNotFound),
        }
    }

    /// The UDP settings, given first or after the TCP subcommand.
    pub fn udp_options(&self) -> (r: Result<&UdpOptions, ConfigError>)
        ensures
            match self {
                Subcommands::Udp { udp, .. } => r == Ok::<&UdpOptions, ConfigError>(udp),
                Subcommands::Tcp { udp: Some(u), .. } => r == Ok::<&UdpOptions, ConfigError>(u),
                Subcommands::Tcp { udp: None, .. } => r == Err::<&UdpOptions, ConfigError>(
                    ConfigError::UdpSubcommandNotFound,
                ),
            },
    {
        match self {
            Subcommands::Udp { udp, .. } => Ok(udp),
            Subcommands::Tcp { udp: Some(u), .. } => Ok(u),
            Subcommands::Tcp { udp: None, .. } => Err(ConfigError::UdpSubcommandNotFound),
        }
    }
}

/// `offsets` as plan entries of `kind`, in order.
pub open spec fn entries_of(offsets: Seq<i32>, kind: DesyncType) -> Seq<SplitPosition> {
    offsets.map_values(|p: i32| SplitPosition { pos: p, desync_type: kind })
}

/// The plan entries a command line asks for, in the order they are listed:
/// the disorder offset if set, then the split, disoob, splitoob and fake
/// offsets.
pub open spec fn requested_entries(
    disorder: i32,
    split: Seq<i32>,
    disoob: Seq<i32>,
    splitoob: Seq<i32>,
    fake: Seq<i32>,
) -> Seq<SplitPosition> {
    (if disorder != 0 {
        seq![SplitPosition { pos: disorder, desync_type: DesyncType::Disorder }]
    } else {
        Seq::empty()
    }) + entries_of(split, DesyncType::Split) + entries_of(disoob, DesyncType::Disoob) + entries_of(
        splitoob,
        DesyncType::Splitoob,
    ) + entries_of(fake, DesyncType::Fake)
}

fn push_entries(v: &mut Vec<SplitPosition>, offsets: &Vec<i32>, kind: DesyncType)
    ensures
        final(v)@ == old(v)@ + entries_of(offsets@, kind),
{
    let ghost start = v@;
    let mut i: usize = 0;
    while i < offsets.len()
        invariant
            0 <= i <= offsets@.len(),
            v@ == start + entries_of(offsets@.take(i as int), kind),
        decreases offsets@.len() - i,
    {
        v.push(SplitPosition { pos: offsets[i], desync_type: kind });
        assert(entries_of(offsets@.take(i as int + 1), kind) =~= entries_of(
            offsets@.take(i as int),
            kind,
        ).push(SplitPosition { pos: offsets@[i as int], desync_type: kind }));
        i = i + 1;
    }
    assert(offsets@.take(offsets@.len() as int) =~= offsets@);
}

/// The plan entries requested by the offset lists, in listing order.
pub fn split_positions(
    disorder: i32,
    split: &Vec<i32>,
    disoob: &Vec<i32>,
    splitoob: &Vec<i32>,
    fake: &Vec<i32>,
) -> (r: Vec<SplitPosition>)
    ensures
        r@ == requested_entries(disorder, split@, disoob@, splitoob@, fake@),
{
    let mut v: Vec<SplitPosition> = Vec::new();
    if disorder != 0 {
        v.push(SplitPosition { pos: disorder, desync_type: DesyncType::Disorder });
    }
    assert(v@ =~= if disorder != 0 {
        seq![SplitPosition { pos: disorder, desync_type: DesyncType::Disorder }]
    } else {
        Seq::empty()
    });
    push_entries(&mut v, split, DesyncType::Split);
    push_entries(&mut v, disoob, DesyncType::Disoob);
    push_entries(&mut v, splitoob, DesyncType::Splitoob);
    push_entries(&mut v, fake, DesyncType::Fake);
    v
}

impl TcpOptions {
    /// The plan entries these settings request, in listing order.
    pub open spec fn requested(&self) -> Seq<SplitPosition> {
        requested_entries(self.disorder, self.split@, self.disoob@, self.splitoob@, self.fake@)
    }

    /// The desync settings of these options: the requested entries merged into
    /// an empty plan. Rejected when no offset is given at all.
    pub fn bypass_options(&self) -> (r: Result<BypassOptions, ConfigError>)
        ensures
            r is Ok <==> self.requested().len() > 0,
            r is Err ==> r == Err::<BypassOptions, ConfigError>(ConfigError::NoDesyncOptions),
            r matches Ok(b) ==> {
                &&& is_stable_sort_of(b.plan(), self.requested())
                &&& b.fake_ttl == self.fake_ttl as u32
                &&& b.oob_data == self.oob_data
                &&& b.timeout == self.timeout
            },
    {
        let positions = split_positions(
            self.disorder,
            &self.split,
            &self.disoob,
            &self.splitoob,
            &self.fake,
        );
        let mut b = BypassOptions::new(self.fake_ttl as u32);
        b.append_options(positions);
        assert(Seq::<SplitPosition>::empty() + self.requested() =~= self.requested());
        b.oob_data = self.oob_data;
        b.timeout = self.timeout;
        if !b.at_least_one_option() {
            proof {
                crate::bypass::lemma_stable_sort_len(b.plan(), self.requested());
            }
            return Err(ConfigError::NoDesyncOptions);
        }
        proof {
            crate::bypass::lemma_stable_sort_len(b.plan(), self.requested());
        }
        Ok(b)
    }
}

} // verus!
