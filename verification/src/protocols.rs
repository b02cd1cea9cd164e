//! Protocols, their constants and the rules that read them.

use vstd::prelude::*;

use crate::net::Ipv4Addr;
use crate::order::views;
use crate::scan::{chars_of, is_alike, opt_text, read_whole};

verus! {

// ── Network constants ────────────────────────────────────────────────────────

/// SAP announcements of sessions.
pub const SAP_PORT: u16 = 9875;

/// mDNS discovery.
pub const MDNS_PORT: u16 = 5353;

/// PTP event messages.
pub const PTP_EVENT_PORT: u16 = 319;

/// PTP general messages.
pub const PTP_GENERAL_PORT: u16 = 320;

/// AVTP, the transport of AVB.
pub const ETHERTYPE_AVTP: u16 = 0x22F0;

/// PTP straight over Ethernet.
pub const ETHERTYPE_PTP: u16 = 0x88F7;

/// MSRP stream reservation.
pub const ETHERTYPE_MSRP: u16 = 0x22EA;

/// MVRP VLAN registration.
pub const ETHERTYPE_MVRP: u16 = 0x88F5;

/// LLDP link layer discovery.
pub const ETHERTYPE_LLDP: u16 = 0x88CC;

/// PAUSE and priority flow control.
pub const ETHERTYPE_FLOW_CTRL: u16 = 0x8808;

/// IPv4.
pub const ETHERTYPE_IPV4: u16 = 0x0800;

/// The IP protocol number of IGMP.
pub const IP_PROTO_IGMP: u8 = 0x02;

/// The IP protocol number of TCP.
pub const IP_PROTO_TCP: u8 = 0x06;

/// Nanoseconds in a second.
pub const SECOND: u64 = 1_000_000_000;

/// Seconds of silence after which a stream is dead.
pub const STREAM_TIMEOUT_SECS: u64 = 10;

/// The RTP clock rate assumed until it is known.
pub const DEFAULT_CLOCK_HZ: u32 = 48_000;

/// A rate in hertz as microhertz.
pub open spec fn microhertz(hz: u32) -> i64 {
    (hz * 1_000_000) as i64
}

/// A rate in hertz as microhertz.
pub fn hertz(hz: u32) -> (r: i64)
    ensures
        r == microhertz(hz),
{
    hz as i64 * 1_000_000
}

/// PTP version 1 as it stands in the message.
pub const PTP_VERSION_V1: u8 = 1;

/// PTP version 2 as it stands in the message.
pub const PTP_VERSION_V2: u8 = 2;

/// The lowest NDI port.
pub const NDI_PORT_MIN: u16 = 5960;

/// The highest NDI port.
pub const NDI_PORT_MAX: u16 = 5980;

/// Whether a port is one of Dante's control ports.
pub open spec fn dante_control(port: u16) -> bool {
    port == 4440 || port == 4455 || port == 8700 || port == 8800
}

/// Whether a port is one of Dante's control ports.
pub fn is_dante_control(port: u16) -> (r: bool)
    ensures
        r == dante_control(port),
{
    port == 4440 || port == 4455 || port == 8700 || port == 8800
}

/// The group that general IGMP queries go to. A query to it establishes the
/// querier; a query to any other group only verifies a membership.
pub open spec fn all_systems() -> Ipv4Addr {
    Ipv4Addr { a: 224, b: 0, c: 0, d: 1 }
}

/// The group that general IGMP queries go to, 224.0.0.1.
pub fn igmp_all_systems() -> (ip: Ipv4Addr)
    ensures
        ip == all_systems(),
{
    Ipv4Addr { a: 224, b: 0, c: 0, d: 1 }
}

// ── Decoded traffic ──────────────────────────────────────────────────────────

/// A TCP segment, whatever it carries.
#[derive(Debug, Clone, Copy, PartialEq)]
pub struct TcpSegment {
    pub src: Ipv4Addr,
    pub dst: Ipv4Addr,
    pub src_port: u16,
    pub dst_port: u16,
    pub seq: u32,
    pub ack: u32,
    pub has_fin: bool,
    pub has_syn: bool,
    pub has_rst: bool,
}

/// Link layer flow control.
#[derive(Debug, Clone, Copy, PartialEq, Eq, Structural)]
pub enum FlowControlKind {
    /// Pause of the whole link.
    Pause,
    /// Pause per priority.
    PriorityFlowControl,
}

/// An IGMP message.
#[derive(Debug, Clone, PartialEq)]
pub enum IgmpType {
    /// A host joins a group.
    Join,
    /// A host leaves a group.
    Leave,
    /// A membership query of the given version.
    Query { version: u8 },
    /// A version 3 report with the groups of its records.
    MembershipReportV3 { groups: Vec<Ipv4Addr> },
    /// Any other message type.
    Unknown(u8),
}

/// An IGMP message in specifications.
pub enum IgmpTypeView {
    Join,
    Leave,
    Query { version: u8 },
    MembershipReportV3 { groups: Seq<Ipv4Addr> },
    Unknown(u8),
}

impl View for IgmpType {
    type V = IgmpTypeView;

    open spec fn view(&self) -> IgmpTypeView {
        match self {
            IgmpType::Join => IgmpTypeView::Join,
            IgmpType::Leave => IgmpTypeView::Leave,
            IgmpType::Query { version } => IgmpTypeView::Query { version: *version },
            IgmpType::MembershipReportV3 { groups } => IgmpTypeView::MembershipReportV3 {
                groups: groups@,
            },
            IgmpType::Unknown(t) => IgmpTypeView::Unknown(*t),
        }
    }
}

/// A PTP message.
#[derive(Debug, Clone, PartialEq)]
pub struct PtpInfo {
    pub version: u8,
    pub message_type: u8,
    pub domain: u8,
    pub clock_id: Option<String>,
    pub grandmaster_id: Option<String>,
    pub clock_quality: Option<String>,
    pub correction_ns: Option<i64>,
    pub path_delay_ns: Option<i64>,
    /// "Sync", "Follow_Up", "Delay_Req" and so on.
    pub message_name: String,
    pub port_id: Option<u16>,
    pub sequence_id: u16,
    pub log_sync_interval: i8,
    pub log_min_pdelay_req_interval: i8,
    /// The kind of clock network: "PTPv1", "PTPv2" or "AVB".
    pub protocol_kind: Option<String>,
    /// The sender, where the message came over IP.
    pub src_ip: Option<Ipv4Addr>,
    /// The grandmaster's stratum, in a version 1 Sync only.
    pub stratum: Option<u8>,
}

/// A PTP message in specifications.
pub struct PtpInfoView {
    pub version: u8,
    pub message_type: u8,
    pub domain: u8,
    pub clock_id: Option<Seq<char>>,
    pub grandmaster_id: Option<Seq<char>>,
    pub clock_quality: Option<Seq<char>>,
    pub correction_ns: Option<i64>,
    pub path_delay_ns: Option<i64>,
    pub message_name: Seq<char>,
    pub port_id: Option<u16>,
    pub sequence_id: u16,
    pub log_sync_interval: i8,
    pub log_min_pdelay_req_interval: i8,
    pub protocol_kind: Option<Seq<char>>,
    pub src_ip: Option<Ipv4Addr>,
    pub stratum: Option<u8>,
}

impl View for PtpInfo {
    type V = PtpInfoView;

    open spec fn view(&self) -> PtpInfoView {
        PtpInfoView {
            version: self.version,
            message_type: self.message_type,
            domain: self.domain,
            clock_id: opt_text(self.clock_id),
            grandmaster_id: opt_text(self.grandmaster_id),
            clock_quality: opt_text(self.clock_quality),
            correction_ns: self.correction_ns,
            path_delay_ns: self.path_delay_ns,
            message_name: self.message_name@,
            port_id: self.port_id,
            sequence_id: self.sequence_id,
            log_sync_interval: self.log_sync_interval,
            log_min_pdelay_req_interval: self.log_min_pdelay_req_interval,
            protocol_kind: opt_text(self.protocol_kind),
            src_ip: self.src_ip,
            stratum: self.stratum,
        }
    }
}

/// What a stream of ST 2110 carries.
#[derive(Debug, Clone, Copy, PartialEq, Eq, Structural)]
pub enum St2110Type {
    Video,
    Audio,
    Ancdata,
    Unknown,
}

/// What an MSRP declaration declares.
#[derive(Debug, Clone, Copy, PartialEq, Eq, Structural)]
pub enum MsrpDeclType {
    TalkerAdvertise,
    TalkerFailed,
    Listener,
}

/// One MSRP declaration.
#[derive(Debug, Clone, Copy, PartialEq)]
pub struct MsrpDeclaration {
    pub decl_type: MsrpDeclType,
    pub stream_id: [u8; 8],
    pub dest_mac: Option<[u8; 6]>,
    pub vlan_id: Option<u16>,
    pub max_frame_size: Option<u16>,
    pub max_interval_frames: Option<u16>,
    /// The traffic class priority.
    pub priority: Option<u8>,
    /// Of a failed talker only.
    pub failure_code: Option<u8>,
    /// Of a listener only: 0 ignore, 1 asking failed, 2 ready, 3 ready failed.
    pub listener_state: Option<u8>,
}

impl View for MsrpDeclaration {
    type V = MsrpDeclaration;

    open spec fn view(&self) -> MsrpDeclaration {
        *self
    }
}

/// What a Dante packet is about.
#[derive(Debug, Clone, PartialEq)]
pub enum DanteKind {
    /// An mDNS response of a device.
    Discovery { device_name: Option<String> },
    /// Audio.
    AudioStream,
    /// Control traffic.
    Control,
    /// Control and monitoring multicast, a sign of life of a device.
    ConMon { device_mac: [u8; 6], channels: Option<u8> },
    /// Control traffic whose port tells the class of the device.
    ControlPlane { class: TransmitterClass },
}

/// What a Dante packet is about, in specifications.
pub enum DanteKindView {
    Discovery { device_name: Option<Seq<char>> },
    AudioStream,
    Control,
    ConMon { device_mac: [u8; 6], channels: Option<u8> },
    ControlPlane { class: TransmitterClass },
}

impl View for DanteKind {
    type V = DanteKindView;

    open spec fn view(&self) -> DanteKindView {
        match self {
            DanteKind::Discovery { device_name } => DanteKindView::Discovery {
                device_name: opt_text(*device_name),
            },
            DanteKind::AudioStream => DanteKindView::AudioStream,
            DanteKind::Control => DanteKindView::Control,
            DanteKind::ConMon { device_mac, channels } => DanteKindView::ConMon {
                device_mac: *device_mac,
                channels: *channels,
            },
            DanteKind::ControlPlane { class } => DanteKindView::ControlPlane { class: *class },
        }
    }
}

/// What an NDI packet is about.
#[derive(Debug, Clone, PartialEq)]
pub enum NdiKind {
    /// An mDNS response of a source.
    Discovery { source_name: Option<String> },
}

/// An AVDECC discovery announcement.
#[derive(Debug, Clone, Copy, PartialEq)]
pub struct AvdeccAdp {
    /// 0 available, 1 departing, 2 discover.
    pub message_type: u8,
    pub entity_id: [u8; 8],
    pub entity_model_id: [u8; 8],
    pub entity_capabilities: u32,
    pub talker_stream_sources: u16,
    pub talker_capabilities: u16,
    pub listener_stream_sinks: u16,
    pub listener_capabilities: u16,
    pub gptp_grandmaster_id: [u8; 8],
    pub gptp_domain_number: u8,
    /// How long the announcement holds, in seconds.
    pub valid_time_secs: u64,
    /// Counts the changes of the entity's state.
    pub available_index: u32,
}

/// One media description of a session.
#[derive(Debug, PartialEq)]
pub struct SdpMedia {
    pub media_type: String,
    pub port: u16,
    pub payload_types: Vec<u8>,
    pub connection: String,
    pub rtpmap: String,
    /// The clock rate in microhertz, zero where none is given.
    pub clock_uhz: i64,
    pub channels: u8,
    /// The packet time in nanoseconds, zero where none is given.
    pub ptime_ns: i64,
    pub ts_refclk: String,
    pub mediaclk: String,
}

/// One media description in specifications.
pub struct SdpMediaView {
    pub media_type: Seq<char>,
    pub port: u16,
    pub payload_types: Seq<u8>,
    pub connection: Seq<char>,
    pub rtpmap: Seq<char>,
    pub clock_uhz: i64,
    pub channels: u8,
    pub ptime_ns: i64,
    pub ts_refclk: Seq<char>,
    pub mediaclk: Seq<char>,
}

impl View for SdpMedia {
    type V = SdpMediaView;

    open spec fn view(&self) -> SdpMediaView {
        SdpMediaView {
            media_type: self.media_type@,
            port: self.port,
            payload_types: self.payload_types@,
            connection: self.connection@,
            rtpmap: self.rtpmap@,
            clock_uhz: self.clock_uhz,
            channels: self.channels,
            ptime_ns: self.ptime_ns,
            ts_refclk: self.ts_refclk@,
            mediaclk: self.mediaclk@,
        }
    }
}

/// A session announcement.
#[derive(Debug, PartialEq)]
pub struct SdpSession {
    pub session_id: String,
    pub session_name: String,
    pub info: String,
    pub media: Vec<SdpMedia>,
}

/// A session announcement in specifications.
pub struct SdpSessionView {
    pub session_id: Seq<char>,
    pub session_name: Seq<char>,
    pub info: Seq<char>,
    pub media: Seq<SdpMediaView>,
}

impl View for SdpSession {
    type V = SdpSessionView;

    open spec fn view(&self) -> SdpSessionView {
        SdpSessionView {
            session_id: self.session_id@,
            session_name: self.session_name@,
            info: self.info@,
            media: views(self.media@),
        }
    }
}

/// The traffic of interest.
#[allow(inconsistent_fields)]
#[derive(Debug, PartialEq)]
pub enum AvProtocol {
    Aes67 { src: Ipv4Addr, dst: Ipv4Addr, dst_port: u16, payload_type: u8 },
    St2110 { src: Ipv4Addr, dst: Ipv4Addr, dst_port: u16, stream_type: St2110Type },
    Dante { kind: DanteKind, src: Ipv4Addr, dst: Ipv4Addr, dst_port: u16 },
    Ndi { kind: NdiKind, src: Ipv4Addr },
    Avb { subtype: u8, stream_id: Option<[u8; 8]>, seq: Option<u8> },
    Msrp { declarations: Vec<MsrpDeclaration> },
    Mvrp { vlan_ids: Vec<u16> },
    Sap { src: Ipv4Addr, sdp: SdpSession },
    AvdeccAdp(AvdeccAdp),
    Ptp { info: PtpInfo },
    Igmp { src: Ipv4Addr, src_mac: [u8; 6], group: Ipv4Addr, igmp_type: IgmpType },
    LldpEee { chassis_id: String, port_id: String, tx_wake_us: u16, rx_wake_us: u16 },
    FlowControl { kind: FlowControlKind },
    /// Any TCP segment over IPv4. Whether it belongs to NDI is judged later,
    /// where the known sources are.
    Tcp(TcpSegment),
}

/// The traffic of interest in specifications.
#[allow(inconsistent_fields)]
pub enum AvProtocolView {
    Aes67 { src: Ipv4Addr, dst: Ipv4Addr, dst_port: u16, payload_type: u8 },
    St2110 { src: Ipv4Addr, dst: Ipv4Addr, dst_port: u16, stream_type: St2110Type },
    Dante { kind: DanteKindView, src: Ipv4Addr, dst: Ipv4Addr, dst_port: u16 },
    Ndi { source_name: Option<Seq<char>>, src: Ipv4Addr },
    Avb { subtype: u8, stream_id: Option<[u8; 8]>, seq: Option<u8> },
    Msrp { declarations: Seq<MsrpDeclaration> },
    Mvrp { vlan_ids: Seq<u16> },
    Sap { src: Ipv4Addr, sdp: SdpSessionView },
    AvdeccAdp(AvdeccAdp),
    Ptp { info: PtpInfoView },
    Igmp { src: Ipv4Addr, src_mac: [u8; 6], group: Ipv4Addr, igmp_type: IgmpTypeView },
    LldpEee { chassis_id: Seq<char>, port_id: Seq<char>, tx_wake_us: u16, rx_wake_us: u16 },
    FlowControl { kind: FlowControlKind },
    Tcp(TcpSegment),
}

impl View for AvProtocol {
    type V = AvProtocolView;

    open spec fn view(&self) -> AvProtocolView {
        match self {
            AvProtocol::Aes67 { src, dst, dst_port, payload_type } => AvProtocolView::Aes67 {
                src: *src,
                dst: *dst,
                dst_port: *dst_port,
                payload_type: *payload_type,
            },
            AvProtocol::St2110 { src, dst, dst_port, stream_type } => AvProtocolView::St2110 {
                src: *src,
                dst: *dst,
                dst_port: *dst_port,
                stream_type: *stream_type,
            },
            AvProtocol::Dante { kind, src, dst, dst_port } => AvProtocolView::Dante {
                kind: kind@,
                src: *src,
                dst: *dst,
                dst_port: *dst_port,
            },
            AvProtocol::Ndi { kind: NdiKind::Discovery { source_name }, src } => {
                AvProtocolView::Ndi { source_name: opt_text(*source_name), src: *src }
            },
            AvProtocol::Avb { subtype, stream_id, seq } => AvProtocolView::Avb {
                subtype: *subtype,
                stream_id: *stream_id,
                seq: *seq,
            },
            AvProtocol::Msrp { declarations } => AvProtocolView::Msrp {
                declarations: declarations@,
            },
            AvProtocol::Mvrp { vlan_ids } => AvProtocolView::Mvrp { vlan_ids: vlan_ids@ },
            AvProtocol::Sap { src, sdp } => AvProtocolView::Sap { src: *src, sdp: sdp@ },
            AvProtocol::AvdeccAdp(adp) => AvProtocolView::AvdeccAdp(*adp),
            AvProtocol::Ptp { info } => AvProtocolView::Ptp { info: info@ },
            AvProtocol::Igmp { src, src_mac, group, igmp_type } => AvProtocolView::Igmp {
                src: *src,
                src_mac: *src_mac,
                group: *group,
                igmp_type: igmp_type@,
            },
            AvProtocol::LldpEee { chassis_id, port_id, tx_wake_us, rx_wake_us } => {
                AvProtocolView::LldpEee {
                    chassis_id: chassis_id@,
                    port_id: port_id@,
                    tx_wake_us: *tx_wake_us,
                    rx_wake_us: *rx_wake_us,
                }
            },
            AvProtocol::FlowControl { kind } => AvProtocolView::FlowControl { kind: *kind },
            AvProtocol::Tcp(segment) => AvProtocolView::Tcp(*segment),
        }
    }
}

// ── Selection ────────────────────────────────────────────────────────────────

/// What the user asks to be monitored.
#[allow(clippy::upper_case_acronyms)]
#[derive(Debug, Clone, Copy, PartialEq, Eq, Structural)]
pub enum ProtocolChoice {
    All,
    AES67,
    Audio,
    Video,
    ST2110,
    Dante,
    NDI,
    AVB,
}

/// The name shown for a choice.
pub open spec fn choice_name(c: ProtocolChoice) -> Seq<char> {
    match c {
        ProtocolChoice::All => "All"@,
        ProtocolChoice::AES67 => "AES67"@,
        ProtocolChoice::Audio => "Audio (AES67 + Dante + AVB)"@,
        ProtocolChoice::Video => "Video (ST2110 + NDI)"@,
        ProtocolChoice::ST2110 => "ST2110"@,
        ProtocolChoice::Dante => "Dante"@,
        ProtocolChoice::NDI => "NDI"@,
        ProtocolChoice::AVB => "AVB"@,
    }
}

/// A single protocol rather than a group of them.
pub open spec fn concrete(c: ProtocolChoice) -> bool {
    !(c is All) && !(c is Audio) && !(c is Video)
}

/// The protocols that a choice stands for.
pub open spec fn included(c: ProtocolChoice) -> Seq<ProtocolChoice> {
    match c {
        ProtocolChoice::All => seq![
            ProtocolChoice::AES67,
            ProtocolChoice::ST2110,
            ProtocolChoice::Dante,
            ProtocolChoice::NDI,
            ProtocolChoice::AVB,
        ],
        ProtocolChoice::Audio => seq![
            ProtocolChoice::AES67,
            ProtocolChoice::Dante,
            ProtocolChoice::AVB,
        ],
        ProtocolChoice::Video => seq![ProtocolChoice::ST2110, ProtocolChoice::NDI],
        other => seq![other],
    }
}

/// The choices of the menu, in its order.
pub open spec fn menu() -> Seq<ProtocolChoice> {
    seq![
        ProtocolChoice::Audio,
        ProtocolChoice::Video,
        ProtocolChoice::AES67,
        ProtocolChoice::AVB,
        ProtocolChoice::Dante,
        ProtocolChoice::NDI,
        ProtocolChoice::ST2110,
    ]
}

/// Choices whose traffic needs a PTP clock.
pub open spec fn ptp_needed(c: ProtocolChoice) -> bool {
    c is AES67 || c is ST2110 || c is Dante || c is AVB
}

/// Choices whose traffic is IP multicast.
pub open spec fn igmp_needed(c: ProtocolChoice) -> bool {
    c is AES67 || c is ST2110 || c is Dante
}

/// Choices whose sessions are announced.
pub open spec fn sap_needed(c: ProtocolChoice) -> bool {
    c is AES67 || c is ST2110
}

/// The choice that text names: a name in either case, or a number of the menu.
pub open spec fn choice_of(s: Seq<char>) -> Option<ProtocolChoice> {
    if crate::scan::alike(s, "all"@) {
        Some(ProtocolChoice::All)
    } else if crate::scan::alike(s, "audio"@) {
        Some(ProtocolChoice::Audio)
    } else if crate::scan::alike(s, "video"@) {
        Some(ProtocolChoice::Video)
    } else if crate::scan::alike(s, "aes67"@) {
        Some(ProtocolChoice::AES67)
    } else if crate::scan::alike(s, "avb"@) {
        Some(ProtocolChoice::AVB)
    } else if crate::scan::alike(s, "dante"@) {
        Some(ProtocolChoice::Dante)
    } else if crate::scan::alike(s, "ndi"@) {
        Some(ProtocolChoice::NDI)
    } else if crate::scan::alike(s, "st2110"@) {
        Some(ProtocolChoice::ST2110)
    } else {
        match crate::scan::whole(s, 7) {
            Some(n) => if n >= 1 {
                Some(menu()[n - 1])
            } else {
                None
            },
            None => None,
        }
    }
}

impl ProtocolChoice {
    /// The name shown for the choice.
    pub fn name(&self) -> (s: &'static str)
        ensures
            s@ == choice_name(*self),
    {
        match self {
            ProtocolChoice::All => "All",
            ProtocolChoice::AES67 => "AES67",
            ProtocolChoice::Audio => "Audio (AES67 + Dante + AVB)",
            ProtocolChoice::Video => "Video (ST2110 + NDI)",
            ProtocolChoice::ST2110 => "ST2110",
            ProtocolChoice::Dante => "Dante",
            ProtocolChoice::NDI => "NDI",
            ProtocolChoice::AVB => "AVB",
        }
    }

    /// Whether the traffic runs over UDP.
    pub fn needs_udp(&self) -> (r: bool)
        ensures
            r == !(*self is All || *self is AVB),
    {
        match self {
            ProtocolChoice::AES67
            | ProtocolChoice::Audio
            | ProtocolChoice::Video
            | ProtocolChoice::ST2110
            | ProtocolChoice::Dante
            | ProtocolChoice::NDI => true,
            ProtocolChoice::All | ProtocolChoice::AVB => false,
        }
    }

    /// Whether the traffic runs over TCP.
    pub fn needs_tcp(&self) -> (r: bool)
        ensures
            r == (*self is NDI),
    {
        match self {
            ProtocolChoice::NDI => true,
            _ => false,
        }
    }

    /// Whether the traffic runs straight over Ethernet.
    pub fn needs_avb(&self) -> (r: bool)
        ensures
            r == (*self is AVB),
    {
        match self {
            ProtocolChoice::AVB => true,
            _ => false,
        }
    }

    /// The choices of the menu.
    pub fn all_choices() -> (v: Vec<ProtocolChoice>)
        ensures
            v@ == menu(),
    {
        let v: Vec<ProtocolChoice> = vec![
            ProtocolChoice::Audio,
            ProtocolChoice::Video,
            ProtocolChoice::AES67,
            ProtocolChoice::AVB,
            ProtocolChoice::Dante,
            ProtocolChoice::NDI,
            ProtocolChoice::ST2110,
        ];
        assert(v@ =~= menu());
        v
    }

    /// The protocols that the choice stands for.
    pub fn includes(&self) -> (v: Vec<ProtocolChoice>)
        ensures
            v@ == included(*self),
    {
        let v: Vec<ProtocolChoice> = match self {
            ProtocolChoice::All => vec![
                ProtocolChoice::AES67,
                ProtocolChoice::ST2110,
                ProtocolChoice::Dante,
                ProtocolChoice::NDI,
                ProtocolChoice::AVB,
            ],
            ProtocolChoice::Audio => vec![
                ProtocolChoice::AES67,
                ProtocolChoice::Dante,
                ProtocolChoice::AVB,
            ],
            ProtocolChoice::Video => vec![ProtocolChoice::ST2110, ProtocolChoice::NDI],
            other => vec![*other],
        };
        assert(v@ =~= included(*self));
        v
    }

    /// Whether the traffic needs a PTP clock.
    pub fn needs_ptp(&self) -> (r: bool)
        ensures
            r == ptp_needed(*self),
    {
        match self {
            ProtocolChoice::AES67
            | ProtocolChoice::ST2110
            | ProtocolChoice::Dante
            | ProtocolChoice::AVB => true,
            _ => false,
        }
    }

    /// Whether the traffic is IP multicast and so depends on IGMP.
    pub fn needs_igmp(&self) -> (r: bool)
        ensures
            r == igmp_needed(*self),
    {
        match self {
            ProtocolChoice::AES67 | ProtocolChoice::ST2110 | ProtocolChoice::Dante => true,
            _ => false,
        }
    }

    /// Whether the sessions are announced by SAP.
    pub fn needs_sap(&self) -> (r: bool)
        ensures
            r == sap_needed(*self),
    {
        match self {
            ProtocolChoice::AES67 | ProtocolChoice::ST2110 => true,
            _ => false,
        }
    }

    /// Reads a choice by its name or its number in the menu.
    pub fn parse(text: &str) -> (r: Option<ProtocolChoice>)
        ensures
            r == choice_of(text@),
    {
        let s: Vec<char> = chars_of(text);
        let c: &[char] = s.as_slice();
        if is_alike(c, "all") {
            Some(ProtocolChoice::All)
        } else if is_alike(c, "audio") {
            Some(ProtocolChoice::Audio)
        } else if is_alike(c, "video") {
            Some(ProtocolChoice::Video)
        } else if is_alike(c, "aes67") {
            Some(ProtocolChoice::AES67)
        } else if is_alike(c, "avb") {
            Some(ProtocolChoice::AVB)
        } else if is_alike(c, "dante") {
            Some(ProtocolChoice::Dante)
        } else if is_alike(c, "ndi") {
            Some(ProtocolChoice::NDI)
        } else if is_alike(c, "st2110") {
            Some(ProtocolChoice::ST2110)
        } else {
            match read_whole(c, 7) {
                Some(n) => if n >= 1 {
                    let choices: Vec<ProtocolChoice> = ProtocolChoice::all_choices();
                    Some(choices[(n - 1) as usize])
                } else {
                    None
                },
                None => None,
            }
        }
    }
}

/// Every choice expands to single protocols.
pub proof fn law_includes_concrete(c: ProtocolChoice)
    ensures
        included(c).len() > 0,
        forall|i: int| 0 <= i < included(c).len() ==> concrete(#[trigger] included(c)[i]),
{
}

/// Whether a protocol is among the selected ones.
pub open spec fn chosen(expanded: Seq<ProtocolChoice>, c: ProtocolChoice) -> bool {
    exists|i: int| 0 <= i < expanded.len() && #[trigger] expanded[i] == c
}

/// Whether a protocol is among the selected ones.
pub fn is_chosen(expanded: &[ProtocolChoice], c: ProtocolChoice) -> (r: bool)
    ensures
        r == chosen(expanded@, c),
{
    let mut i: usize = 0;
    while i < expanded.len()
        invariant
            i <= expanded@.len(),
            forall|j: int| 0 <= j < i ==> #[trigger] expanded@[j] != c,
        decreases expanded@.len() - i,
    {
        if expanded[i] == c {
            return true;
        }
        i += 1;
    }
    false
}

/// Whether some selected protocol needs a PTP clock.
pub open spec fn any_ptp(expanded: Seq<ProtocolChoice>) -> bool {
    exists|i: int| 0 <= i < expanded.len() && ptp_needed(#[trigger] expanded[i])
}

/// Whether some selected protocol is IP multicast.
pub open spec fn any_igmp(expanded: Seq<ProtocolChoice>) -> bool {
    exists|i: int| 0 <= i < expanded.len() && igmp_needed(#[trigger] expanded[i])
}

/// Whether some selected protocol has announced sessions.
pub open spec fn any_sap(expanded: Seq<ProtocolChoice>) -> bool {
    exists|i: int| 0 <= i < expanded.len() && sap_needed(#[trigger] expanded[i])
}

/// Whether some selected protocol needs a PTP clock.
pub fn wants_ptp(expanded: &[ProtocolChoice]) -> (r: bool)
    ensures
        r == any_ptp(expanded@),
{
    let mut i: usize = 0;
    while i < expanded.len()
        invariant
            i <= expanded@.len(),
            forall|j: int| 0 <= j < i ==> !ptp_needed(#[trigger] expanded@[j]),
        decreases expanded@.len() - i,
    {
        if expanded[i].needs_ptp() {
            return true;
        }
        i += 1;
    }
    false
}

/// Whether some selected protocol is IP multicast.
pub fn wants_igmp(expanded: &[ProtocolChoice]) -> (r: bool)
    ensures
        r == any_igmp(expanded@),
{
    let mut i: usize = 0;
    while i < expanded.len()
        invariant
            i <= expanded@.len(),
            forall|j: int| 0 <= j < i ==> !igmp_needed(#[trigger] expanded@[j]),
        decreases expanded@.len() - i,
    {
        if expanded[i].needs_igmp() {
            return true;
        }
        i += 1;
    }
    false
}

/// Whether some selected protocol has announced sessions.
pub fn wants_sap(expanded: &[ProtocolChoice]) -> (r: bool)
    ensures
        r == any_sap(expanded@),
{
    let mut i: usize = 0;
    while i < expanded.len()
        invariant
            i <= expanded@.len(),
            forall|j: int| 0 <= j < i ==> !sap_needed(#[trigger] expanded@[j]),
        decreases expanded@.len() - i,
    {
        if expanded[i].needs_sap() {
            return true;
        }
        i += 1;
    }
    false
}

/// Whether traffic belongs to the selection. Link layer signals always do.
pub open spec fn selected(p: AvProtocolView, expanded: Seq<ProtocolChoice>) -> bool {
    match p {
        AvProtocolView::Aes67 { .. } => chosen(expanded, ProtocolChoice::AES67),
        AvProtocolView::St2110 { .. } => chosen(expanded, ProtocolChoice::ST2110),
        AvProtocolView::Dante { .. } => chosen(expanded, ProtocolChoice::Dante),
        AvProtocolView::Ndi { .. } | AvProtocolView::Tcp(_) => chosen(expanded, ProtocolChoice::NDI),
        AvProtocolView::Avb { .. }
        | AvProtocolView::Msrp { .. }
        | AvProtocolView::Mvrp { .. }
        | AvProtocolView::AvdeccAdp(_) => chosen(expanded, ProtocolChoice::AVB),
        AvProtocolView::LldpEee { .. } | AvProtocolView::FlowControl { .. } => true,
        AvProtocolView::Ptp { .. } => any_ptp(expanded),
        AvProtocolView::Igmp { .. } => any_igmp(expanded),
        AvProtocolView::Sap { .. } => any_sap(expanded),
    }
}

impl AvProtocol {
    /// Whether the traffic belongs to the selection, given in single protocols.
    pub fn is_selected(&self, expanded: &[ProtocolChoice]) -> (r: bool)
        ensures
            r == selected(self@, expanded@),
    {
        match self {
            AvProtocol::Aes67 { .. } => is_chosen(expanded, ProtocolChoice::AES67),
            AvProtocol::St2110 { .. } => is_chosen(expanded, ProtocolChoice::ST2110),
            AvProtocol::Dante { .. } => is_chosen(expanded, ProtocolChoice::Dante),
            AvProtocol::Ndi { .. } | AvProtocol::Tcp(_) => is_chosen(expanded, ProtocolChoice::NDI),
            AvProtocol::Avb { .. }
            | AvProtocol::Msrp { .. }
            | AvProtocol::Mvrp { .. }
            | AvProtocol::AvdeccAdp(_) => is_chosen(expanded, ProtocolChoice::AVB),
            AvProtocol::LldpEee { .. } | AvProtocol::FlowControl { .. } => true,
            AvProtocol::Ptp { .. } => wants_ptp(expanded),
            AvProtocol::Igmp { .. } => wants_igmp(expanded),
            AvProtocol::Sap { .. } => wants_sap(expanded),
        }
    }
}

/// With one protocol selected, IGMP traffic counts exactly where that protocol
/// needs IGMP, and PTP traffic exactly where it needs a clock.
pub proof fn law_selection_follows_needs(p: AvProtocolView, c: ProtocolChoice)
    ensures
        p is Igmp ==> selected(p, seq![c]) == igmp_needed(c),
        p is Ptp ==> selected(p, seq![c]) == ptp_needed(c),
        p is Sap ==> selected(p, seq![c]) == sap_needed(c),
{
    assert(seq![c][0] == c);
}

// ── Names in tables ──────────────────────────────────────────────────────────

/// The name of an AVTP subtype.
pub open spec fn subtype_name(subtype: u8) -> Seq<char> {
    if subtype == 0x00 {
        "IEC 61883"@
    } else if subtype == 0x01 {
        "MMA Streams"@
    } else if subtype == 0x02 {
        "CRF"@
    } else if subtype == 0x03 {
        "CVF"@
    } else if subtype == 0x04 {
        "CEF"@
    } else if subtype == 0x7E {
        "MAAP"@
    } else if subtype == 0x7F {
        "Experimental"@
    } else {
        "AVTP"@
    }
}

/// The name of an AVTP subtype.
pub fn avtp_subtype_name(subtype: u8) -> (s: &'static str)
    ensures
        s@ == subtype_name(subtype),
{
    match subtype {
        0x00 => "IEC 61883",
        0x01 => "MMA Streams",
        0x02 => "CRF",
        0x03 => "CVF",
        0x04 => "CEF",
        0x7E => "MAAP",
        0x7F => "Experimental",
        _ => "AVTP",
    }
}

/// Why a stream reservation failed, by its code.
pub open spec fn failure_reason(code: u8) -> Seq<char> {
    match code {
        1 => "insufficient bandwidth"@,
        2 => "insufficient bridge resources"@,
        3 => "insufficient bandwidth for Traffic Class"@,
        4 => "StreamID already in use by another Talker"@,
        5 => "stream destination address already in use"@,
        6 => "stream pre-empted by a higher-rank stream"@,
        7 => "reported latency has changed"@,
        8 => "egress port is not AVB-capable"@,
        9 => "use a different destination address"@,
        10 => "out of MSRP resources"@,
        11 => "out of MMRP resources"@,
        12 => "cannot store destination address"@,
        13 => "requested priority is not an SR Class priority"@,
        14 => "MaxFrameSize too large for the media"@,
        15 => "max fan-in ports limit reached"@,
        16 => "changed FirstValue for a registered StreamID"@,
        17 => "VLAN blocked on this egress port (registration forbidden)"@,
        18 => "VLAN tagging disabled on this egress port"@,
        19 => "SR class priority mismatch"@,
        _ => "unknown failure"@,
    }
}

/// Why a stream reservation failed, by its code.
pub fn msrp_failure_reason(code: u8) -> (s: &'static str)
    ensures
        s@ == failure_reason(code),
{
    match code {
        1 => "insufficient bandwidth",
        2 => "insufficient bridge resources",
        3 => "insufficient bandwidth for Traffic Class",
        4 => "StreamID already in use by another Talker",
        5 => "stream destination address already in use",
        6 => "stream pre-empted by a higher-rank stream",
        7 => "reported latency has changed",
        8 => "egress port is not AVB-capable",
        9 => "use a different destination address",
        10 => "out of MSRP resources",
        11 => "out of MMRP resources",
        12 => "cannot store destination address",
        13 => "requested priority is not an SR Class priority",
        14 => "MaxFrameSize too large for the media",
        15 => "max fan-in ports limit reached",
        16 => "changed FirstValue for a registered StreamID",
        17 => "VLAN blocked on this egress port (registration forbidden)",
        18 => "VLAN tagging disabled on this egress port",
        19 => "SR class priority mismatch",
        _ => "unknown failure",
    }
}

// ── Transmitter class ────────────────────────────────────────────────────────

/// Which kind of Dante implementation sends an audio flow.
#[derive(Debug, Clone, Copy, PartialEq, Eq, Structural)]
pub enum TransmitterClass {
    /// An FPGA or embedded endpoint.
    Hardware,
    /// Dante Virtual Soundcard.
    Dvs,
    /// Dante Via.
    Via,
}

impl View for TransmitterClass {
    type V = TransmitterClass;

    open spec fn view(&self) -> TransmitterClass {
        *self
    }
}

/// The label of a class.
pub open spec fn class_label(c: TransmitterClass) -> Seq<char> {
    match c {
        TransmitterClass::Hardware => "Hardware"@,
        TransmitterClass::Dvs => "DVS"@,
        TransmitterClass::Via => "Via"@,
    }
}

impl TransmitterClass {
    /// The label of the class.
    pub fn label(self) -> (s: &'static str)
        ensures
            s@ == class_label(self),
    {
        match self {
            TransmitterClass::Hardware => "Hardware",
            TransmitterClass::Dvs => "DVS",
            TransmitterClass::Via => "Via",
        }
    }
}

/// How well a class is supported.
#[derive(Debug, Clone, Copy, PartialEq, Eq, Structural)]
pub enum TransmitterConfidence {
    /// By a control port.
    Confirmed,
    /// By timing or TTL.
    Inferred,
    /// By the absence of a QoS marking only.
    Hint,
}

/// A class, how well it is supported, and by how many signals.
#[derive(Debug, Clone, Copy, PartialEq, Eq, Structural)]
pub struct TransmitterVerdict {
    pub class: TransmitterClass,
    pub confidence: TransmitterConfidence,
    pub signals: u8,
}

/// Independent signals about the source of a Dante flow.
#[derive(Debug, Clone, Copy)]
pub struct TransmitterSignals {
    /// The class that the source's control traffic tells.
    pub control_plane: Option<TransmitterClass>,
    /// Whether packets come at regular times, once that can be told.
    pub metronomic: Option<bool>,
    /// The TTL of the source; 128 is a Windows host.
    pub ttl: Option<u8>,
    /// Whether the flow came unmarked.
    pub dscp_zero: bool,
}

impl Default for TransmitterSignals {
    fn default() -> (s: Self)
        ensures
            s.control_plane is None,
            s.metronomic is None,
            s.ttl is None,
            !s.dscp_zero,
    {
        TransmitterSignals { control_plane: None, metronomic: None, ttl: None, dscp_zero: false }
    }
}

/// The ports of Dante Virtual Soundcard.
pub open spec fn dvs_port(p: u16) -> bool {
    38700 <= p <= 38708 || p == 38800 || p == 38900 || p == 8899
}

/// The ports of Dante Via.
pub open spec fn via_port(p: u16) -> bool {
    28700 <= p <= 28708 || p == 28800 || p == 28900 || p == 4777 || p == 24440 || p == 24441 || p
        == 24444 || p == 24455 || 34336 <= p <= 34600
}

/// The class that the ports of a flow tell. The keepalive range of FPGA devices
/// lies within the ephemeral ports, so only a destination there counts.
pub open spec fn port_class(src_port: u16, dst_port: u16) -> Option<TransmitterClass> {
    if dvs_port(src_port) || dvs_port(dst_port) {
        Some(TransmitterClass::Dvs)
    } else if via_port(src_port) || via_port(dst_port) {
        Some(TransmitterClass::Via)
    } else if src_port == 8751 || dst_port == 8751 || 61440 <= dst_port <= 61951 {
        Some(TransmitterClass::Hardware)
    } else {
        None
    }
}

fn is_dvs_port(p: u16) -> (r: bool)
    ensures
        r == dvs_port(p),
{
    (38700 <= p && p <= 38708) || p == 38800 || p == 38900 || p == 8899
}

fn is_via_port(p: u16) -> (r: bool)
    ensures
        r == via_port(p),
{
    (28700 <= p && p <= 28708) || p == 28800 || p == 28900 || p == 4777 || p == 24440 || p == 24441
        || p == 24444 || p == 24455 || (34336 <= p && p <= 34600)
}

/// Tells the class of a Dante source by the ports of its control traffic.
pub fn dante_control_plane_class(src_port: u16, dst_port: u16) -> (r: Option<TransmitterClass>)
    ensures
        r == port_class(src_port, dst_port),
{
    if is_dvs_port(src_port) || is_dvs_port(dst_port) {
        Some(TransmitterClass::Dvs)
    } else if is_via_port(src_port) || is_via_port(dst_port) {
        Some(TransmitterClass::Via)
    } else if src_port == 8751 || dst_port == 8751 || (61440 <= dst_port && dst_port <= 61951) {
        Some(TransmitterClass::Hardware)
    } else {
        None
    }
}

/// How many of the weak software signals are there.
pub open spec fn software_signals(s: TransmitterSignals) -> nat {
    (if s.ttl == Some(128u8) {
        1nat
    } else {
        0nat
    }) + (if s.dscp_zero {
        1nat
    } else {
        0nat
    })
}

/// The verdict on the source of a Dante flow. Control ports decide where they
/// were seen; else timing does, whatever the marking; else a Windows TTL; a
/// missing marking alone is only a hint.
pub open spec fn verdict(s: TransmitterSignals) -> Option<TransmitterVerdict> {
    match s.control_plane {
        Some(TransmitterClass::Hardware) => Some(
            TransmitterVerdict {
                class: TransmitterClass::Hardware,
                confidence: TransmitterConfidence::Confirmed,
                signals: if s.metronomic == Some(true) {
                    2
                } else {
                    1
                },
            },
        ),
        Some(class) => Some(
            TransmitterVerdict {
                class,
                confidence: TransmitterConfidence::Confirmed,
                signals: ((if s.metronomic == Some(false) {
                    2nat
                } else {
                    1nat
                }) + software_signals(s)) as u8,
            },
        ),
        None => match s.metronomic {
            Some(true) => Some(
                TransmitterVerdict {
                    class: TransmitterClass::Hardware,
                    confidence: TransmitterConfidence::Inferred,
                    signals: 1,
                },
            ),
            Some(false) => Some(
                TransmitterVerdict {
                    class: TransmitterClass::Dvs,
                    confidence: TransmitterConfidence::Inferred,
                    signals: (1 + software_signals(s)) as u8,
                },
            ),
            None => if s.ttl == Some(128u8) {
                Some(
                    TransmitterVerdict {
                        class: TransmitterClass::Dvs,
                        confidence: TransmitterConfidence::Inferred,
                        signals: software_signals(s) as u8,
                    },
                )
            } else if s.dscp_zero {
                Some(
                    TransmitterVerdict {
                        class: TransmitterClass::Dvs,
                        confidence: TransmitterConfidence::Hint,
                        signals: 1,
                    },
                )
            } else {
                None
            },
        },
    }
}

fn count_software_signals(s: &TransmitterSignals) -> (n: u8)
    ensures
        n == software_signals(*s),
        n <= 2,
{
    let mut n: u8 = 0;
    if s.ttl == Some(128u8) {
        n += 1;
    }
    if s.dscp_zero {
        n += 1;
    }
    n
}

/// Decides the class of a Dante source from independent signals.
pub fn classify_transmitter(s: &TransmitterSignals) -> (r: Option<TransmitterVerdict>)
    ensures
        r == verdict(*s),
{
    let weak: u8 = count_software_signals(s);
    match s.control_plane {
        Some(TransmitterClass::Hardware) => {
            let signals: u8 = if s.metronomic == Some(true) {
                2
            } else {
                1
            };
            Some(
                TransmitterVerdict {
                    class: TransmitterClass::Hardware,
                    confidence: TransmitterConfidence::Confirmed,
                    signals,
                },
            )
        },
        Some(class) => {
            let timed: u8 = if s.metronomic == Some(false) {
                2
            } else {
                1
            };
            Some(
                TransmitterVerdict {
                    class,
                    confidence: TransmitterConfidence::Confirmed,
                    signals: timed + weak,
                },
            )
        },
        None => match s.metronomic {
            Some(true) => Some(
                TransmitterVerdict {
                    class: TransmitterClass::Hardware,
                    confidence: TransmitterConfidence::Inferred,
                    signals: 1,
                },
            ),
            Some(false) => Some(
                TransmitterVerdict {
                    class: TransmitterClass::Dvs,
                    confidence: TransmitterConfidence::Inferred,
                    signals: 1 + weak,
                },
            ),
            None => if s.ttl == Some(128u8) {
                Some(
                    TransmitterVerdict {
                        class: TransmitterClass::Dvs,
                        confidence: TransmitterConfidence::Inferred,
                        signals: weak,
                    },
                )
            } else if s.dscp_zero {
                Some(
                    TransmitterVerdict {
                        class: TransmitterClass::Dvs,
                        confidence: TransmitterConfidence::Hint,
                        signals: 1,
                    },
                )
            } else {
                None
            },
        },
    }
}

/// Software, judged without regard to the marking.
pub open spec fn software(s: TransmitterSignals) -> bool {
    match verdict(TransmitterSignals { dscp_zero: false, ..s }) {
        Some(v) => v.class is Dvs || v.class is Via,
        None => false,
    }
}

/// Whether the source is software when the marking is left out of account. A
/// missing marking must not excuse itself.
pub fn is_software_ignoring_dscp(s: &TransmitterSignals) -> (r: bool)
    ensures
        r == software(*s),
{
    let unmarked: TransmitterSignals = TransmitterSignals {
        control_plane: s.control_plane,
        metronomic: s.metronomic,
        ttl: s.ttl,
        dscp_zero: false,
    };
    match classify_transmitter(&unmarked) {
        Some(v) => v.class == TransmitterClass::Dvs || v.class == TransmitterClass::Via,
        None => false,
    }
}

/// A control port fingerprint wins over every other signal.
pub proof fn law_control_plane_wins(s: TransmitterSignals)
    requires
        s.control_plane is Some,
    ensures
        verdict(s) matches Some(v) && v.class == s.control_plane.unwrap() && v.confidence
            is Confirmed,
{
}

/// Regular timing means hardware, even of an unmarked flow from a Windows host.
pub proof fn law_timing_beats_marking(s: TransmitterSignals)
    requires
        s.control_plane is None,
        s.metronomic == Some(true),
    ensures
        verdict(s) matches Some(v) && v.class is Hardware && v.confidence is Inferred,
{
}

/// A missing marking alone never gives more than a hint, and it takes no part in
/// whether the source counts as software.
pub proof fn law_marking_is_only_a_hint(s: TransmitterSignals)
    ensures
        s.control_plane is None && s.metronomic is None && s.ttl != Some(128u8) ==> (match verdict(
            s,
        ) {
            Some(v) => s.dscp_zero && v.confidence is Hint && v.signals == 1,
            None => !s.dscp_zero,
        }),
        software(s) == software(TransmitterSignals { dscp_zero: !s.dscp_zero, ..s }),
{
}

/// There is a verdict exactly where some signal is there.
pub proof fn law_verdict_needs_a_signal(s: TransmitterSignals)
    ensures
        verdict(s) is None <==> (s.control_plane is None && s.metronomic is None && s.ttl != Some(
            128u8,
        ) && !s.dscp_zero),
        verdict(s) matches Some(v) ==> 1 <= v.signals <= 4,
{
}

} // verus!
