//! The values the runtime exchanges with its surfaces.

use vstd::prelude::*;

use crate::json::JsonObject;
use crate::number::{Decimal, Real};

verus! {

#[derive(Clone, Copy, Debug, PartialEq, Eq, Structural)]
pub enum BridgeStateDto {
    Clear,
    Likely,
    Open,
}

#[derive(Clone, Copy, Debug, PartialEq, Eq, Structural)]
pub enum UrgencyDto {
    Routine,
    HeadsUp,
    Action,
    Emergency,
}

/// Where a channel sits against every other channel right now.
///
/// Computed once, in the engine, from typed facts, so every surface reads one
/// ranking rather than deriving its own.
#[derive(Clone, Copy, Debug, PartialEq, Eq, Structural)]
pub struct ChannelPriorityDto {
    /// Higher wins. Comparable across channel kinds.
    pub score: u16,
    pub urgency: UrgencyDto,
    /// Minutes until this affects the reader; `None` when the timing is unknown.
    pub imminence_minutes: Option<u16>,
    /// Observed rather than predicted.
    pub confirmed: bool,
}

impl Default for ChannelPriorityDto {
    fn default() -> (r: Self)
        ensures
            r.score == 0,
            r.urgency == UrgencyDto::Routine,
            r.imminence_minutes is None,
            !r.confirmed,
    {
        ChannelPriorityDto { score: 0, urgency: UrgencyDto::Routine, imminence_minutes: None, confirmed: false }
    }
}

#[derive(Clone, Copy, Debug, PartialEq, Eq, Structural)]
pub enum AvailabilityDto {
    Fresh,
    Delayed,
    Stale,
    Offline,
}

#[derive(Clone, Copy, Debug, PartialEq, Eq, Structural)]
pub enum AisConnectionStateDto {
    Disabled,
    NeedsKey,
    Armed,
    Live,
    Rejected,
    Disconnected,
}

/// Secret-free runtime health for the optional AISStream source.
#[derive(Clone, Debug, PartialEq)]
pub struct AisStreamStatusDto {
    pub enabled: bool,
    pub provider: AisProvider,
    pub api_key_configured: bool,
    pub source_registered: bool,
    pub connection_state: AisConnectionStateDto,
    pub availability: AvailabilityDto,
    pub last_success_at: Option<String>,
    pub last_position_at: Option<String>,
    pub fresh_vessel_count: usize,
    pub detail: String,
    pub last_error: Option<String>,
}

#[derive(Clone, Copy, Debug, PartialEq, Eq, Structural)]
pub enum DeliveryStateDto {
    Pending,
    Accepted,
    Delivered,
    Failed,
    Suppressed,
}

#[derive(Clone, Copy, Debug, PartialEq, Eq, Structural)]
pub enum SurfacePresence {
    Home,
    Rotation,
    ActiveOnly,
    MessagesOnly,
    Off,
}

#[derive(Clone, Copy, Debug, PartialEq, Eq, Structural)]
pub enum InterruptPreset {
    Recommended,
    ConfirmedOnly,
    Meaningful,
    Off,
    Custom,
}

#[derive(Clone, Copy, Debug, PartialEq, Eq, PartialOrd, Ord, Structural)]
pub enum DestinationIdDto {
    Epaper,
    Whatsapp,
    Desktop,
}

#[derive(Clone, Debug, PartialEq)]
pub struct EvidenceStrip {
    pub id: String,
    pub channel_id: String,
    pub source_id: String,
    pub source_label: String,
    pub title: String,
    pub detail: String,
    pub observed_at: String,
    pub age_seconds: u64,
    pub availability: AvailabilityDto,
    pub contribution_bps: Option<i32>,
    pub state: EvidenceStateDto,
    pub corroborated: Option<bool>,
    pub interrupt: Option<bool>,
}

#[derive(Clone, Copy, Debug, PartialEq, Eq, Structural)]
pub enum EvidenceStateDto {
    Live,
    Pending,
    Stale,
    Disabled,
}

#[derive(Clone, Debug, PartialEq)]
pub struct DecisionSnapshot {
    pub channel_id: String,
    pub subject: String,
    pub state: BridgeStateDto,
    pub state_label: String,
    pub meaning: String,
    pub action: String,
    pub eta_min: Option<u16>,
    pub eta_max: Option<u16>,
    pub confidence_bps: Option<u16>,
    pub confidence_label: Option<String>,
    pub confidence_basis: Option<String>,
    pub next_legal_slot: Option<String>,
    pub opening_allowed_now: bool,
    pub availability: AvailabilityDto,
    pub source_age_seconds: u64,
}

#[derive(Clone, Copy, Debug, PartialEq, Eq, Structural)]
pub enum ChannelKindDto {
    Bridge,
    Weather,
    Official,
    Hurricane,
    News,
    Sports,
    Earthquake,
    Markets,
    System,
}

/// The current material of one channel, ready for a surface.
#[derive(Clone, Debug, PartialEq)]
pub struct ChannelSignalDto {
    /// Provider-authored event title, normalized and bounded for delivery.
    pub headline: String,
    /// Concise provider detail or a typed fact summary; never a raw payload.
    pub detail: String,
    /// Concise factual status detail for the current channel signal.
    pub action: String,
    pub severity: Option<String>,
    pub expires_at: Option<String>,
    /// Coarse identity of how much and how soon, for measured material.
    pub band: Option<String>,
    /// Minutes until this signal's material starts to affect the reader.
    pub imminence_minutes: Option<u16>,
    /// Recent values behind the headline, oldest first.
    pub series: Vec<Decimal>,
    /// The level the change beside the series is measured against.
    pub previous_close: Option<Decimal>,
}

/// One independently current item within a channel.
#[derive(Clone, Debug, PartialEq)]
pub struct ChannelNoticeDto {
    /// Stable identity from the collector item and channel subscription.
    pub key: String,
    /// The provider-owned page behind this slide, when the collector supplied one.
    pub source_url: Option<String>,
    pub signal: ChannelSignalDto,
    /// Item-level ranking used when notices from different channels interleave.
    pub priority: ChannelPriorityDto,
}

#[derive(Clone, Debug, PartialEq)]
pub struct ChannelSnapshot {
    pub id: String,
    pub kind: ChannelKindDto,
    pub title: String,
    pub source_label: String,
    pub availability: AvailabilityDto,
    pub age_seconds: u64,
    /// True only when every configured source for this channel is usable.
    pub coverage_complete: bool,
    pub summary: String,
    /// Deterministic identity for the currently actionable material.
    pub material_key: String,
    pub signal: Option<ChannelSignalDto>,
    /// Every current item, highest priority first.
    pub notices: Vec<ChannelNoticeDto>,
    /// Cross-channel ranking.
    pub priority: ChannelPriorityDto,
    pub enabled: bool,
    pub active: bool,
    pub presence: SurfacePresence,
    pub interrupt_preset: InterruptPreset,
    pub destinations: Vec<DestinationIdDto>,
}

#[derive(Clone, Copy, Debug, PartialEq, Eq, Structural)]
pub enum OutputStateDto {
    Ready,
    Degraded,
    Offline,
    Unconfigured,
}

#[derive(Clone, Debug, PartialEq)]
pub struct OutputSnapshot {
    pub id: DestinationIdDto,
    pub title: String,
    pub state: OutputStateDto,
    pub detail: String,
    pub last_accepted_at: Option<String>,
    pub delivery_state: Option<DeliveryStateDto>,
}

#[derive(Clone, Debug, PartialEq)]
pub struct DispatchRecord {
    pub id: String,
    pub incident_id: String,
    pub material_revision: u32,
    pub at: String,
    pub channel_id: String,
    pub title: String,
    pub state: String,
    pub urgency: UrgencyDto,
    pub destinations: Vec<DestinationIdDto>,
    pub delivery_state: DeliveryStateDto,
}

#[derive(Clone, Copy, Debug, PartialEq, Eq, Structural)]
pub enum SystemStatusDto {
    Nominal,
    Degraded,
    Offline,
}

#[derive(Clone, Debug, PartialEq)]
pub struct SourceHealth {
    pub source_id: String,
    pub channel_id: String,
    pub availability: AvailabilityDto,
    pub detail: String,
    pub failure_count: u32,
    pub last_attempt_at: Option<String>,
    pub last_success_at: Option<String>,
}

#[derive(Clone, Debug, PartialEq)]
pub struct SystemHealth {
    pub status: SystemStatusDto,
    pub sqlite_version: String,
    pub database_size_bytes: u64,
    pub engine_version: String,
    pub last_cycle_at: String,
    pub collectors_online: usize,
    pub collectors_total: usize,
    pub sources: Vec<SourceHealth>,
}

#[derive(Clone, Copy, Debug, PartialEq, Eq, Structural)]
pub enum VesselMovementDto {
    Approaching,
    Stationary,
    Unknown,
    Diverging,
}

/// One vessel in the durable catalog of hulls observed raising Brickell.
#[derive(Clone, Debug, PartialEq)]
pub struct KnownOpenerDto {
    pub mmsi: String,
    pub vessel_name: Option<String>,
    pub vessel_class: Option<String>,
    pub call_sign: Option<String>,
    pub imo_number: Option<u32>,
    pub transits_opened: u64,
    pub transits_fits_under: u64,
    pub first_seen_at: String,
    pub last_seen_at: String,
    pub last_opened_at: Option<String>,
    pub opening_propensity: Option<u16>,
}

#[derive(Clone, Copy, Debug, PartialEq, Eq, Structural)]
pub enum ObservedBridgeStateDto {
    Up,
    Down,
    Unknown,
}

#[derive(Clone, Copy, Debug, PartialEq, Eq, Structural)]
pub enum BridgeRelationDto {
    Target,
    Upstream,
}

/// One uninterrupted FL511 observation interval exposed to the operator log.
#[derive(Clone, Debug, PartialEq, Eq)]
pub struct BridgeStateIntervalDto {
    pub source_id: String,
    pub bridge_key: String,
    pub bridge_name: String,
    pub relation: BridgeRelationDto,
    /// Position counting upstream from the target, 0 for the target itself.
    pub river_order: u8,
    pub state: ObservedBridgeStateDto,
    pub started_at: String,
    pub ended_at: Option<String>,
}

#[derive(Clone, Debug, PartialEq)]
pub struct ChannelPreference {
    pub id: String,
    pub kind: ChannelKindDto,
    pub title: String,
    pub enabled: bool,
    /// Retained for stored-profile compatibility; normalized on load and save.
    pub presence: SurfacePresence,
    pub interrupt_preset: InterruptPreset,
    pub destinations: Vec<DestinationIdDto>,
    pub max_age_minutes: u32,
    pub max_items: usize,
    pub rotation_seconds: u32,
    pub scope: JsonObject,
}

#[derive(Clone, Copy, Debug, PartialEq, Eq, Structural)]
pub enum AlertAreaSource {
    Preset,
    Search,
    Device,
    Manual,
}

#[derive(Clone, Debug, PartialEq)]
pub struct AlertArea {
    pub id: String,
    pub label: String,
    pub latitude: Real,
    pub longitude: Real,
    pub time_zone: String,
    pub country_code: Option<String>,
    pub admin_area: Option<String>,
    pub source: AlertAreaSource,
    pub enabled: bool,
    pub weather_enabled: bool,
    pub official_alerts_enabled: bool,
    pub tropical_context_enabled: bool,
}

#[derive(Clone, Debug, PartialEq)]
pub struct LocationSearchResult {
    pub id: String,
    pub label: String,
    pub latitude: Real,
    pub longitude: Real,
    pub time_zone: String,
    pub country_code: Option<String>,
    pub admin_area: Option<String>,
}

#[derive(Clone, Debug, PartialEq, Eq)]
pub struct QuietHours {
    pub enabled: bool,
    pub start: String,
    pub end: String,
    pub time_zone: String,
    pub bypass_emergency: bool,
}

#[derive(Clone, Copy, Debug, PartialEq, Eq, Structural)]
pub enum ProfilePreset {
    BridgeFirst,
    MiamiWatch,
    FullSignalDesk,
    QuietWatch,
    Custom,
}

#[derive(Clone, Copy, Debug, Default, PartialEq, Eq, Structural)]
pub enum UnitSystem {
    #[default]
    Imperial,
    Metric,
}

#[derive(Clone, Debug, PartialEq)]
pub struct PolicyProfile {
    pub id: String,
    pub name: String,
    pub preset: ProfilePreset,
    pub home_channel_id: String,
    pub quiet_hours: QuietHours,
    pub channels: Vec<ChannelPreference>,
}

#[derive(Clone, Copy, Debug, PartialEq, Eq, Structural)]
pub enum DisplayTransport {
    Auto,
    Usb,
    Ble,
    Preview,
}

#[derive(Clone, Debug, PartialEq, Eq)]
pub struct DisplaySettings {
    pub transport: DisplayTransport,
    pub serial_port: String,
    pub ble_name: String,
    pub dwell_seconds: u32,
    pub full_refresh_every: u32,
    /// Which way up the board is mounted.
    pub orientation: DisplayOrientation,
}

/// Which edge of the panel the reader treats as the top.
#[derive(Clone, Copy, Debug, Default, PartialEq, Eq, Structural)]
pub enum DisplayOrientation {
    #[default]
    Upright,
    Inverted,
}

#[derive(Clone, Copy, Debug, Default, PartialEq, Eq, Structural)]
pub enum WhatsAppRecipientConsent {
    #[default]
    NotRecorded,
    OptedIn,
    Unsubscribed,
}

#[derive(Clone, Debug, PartialEq, Eq)]
pub struct WhatsAppSettings {
    pub enabled: bool,
    pub phone_number_id: String,
    pub recipient: String,
    pub graph_version: String,
    pub template_name: String,
    pub language_code: String,
    pub token_configured: bool,
    pub consent: WhatsAppRecipientConsent,
    pub consent_recipient: Option<String>,
    pub consent_recorded_at_millis: Option<i64>,
}

#[derive(Clone, Copy, Debug, Default, PartialEq, Eq, Structural)]
pub enum AisProvider {
    #[default]
    Aisstream,
}

/// Non-secret AIS configuration. The API key itself never crosses this
/// boundary; only whether one is configured.
#[derive(Clone, Copy, Debug, PartialEq, Eq, Structural)]
pub struct AisSettings {
    /// Whether the source should run. Follows the key rather than a switch.
    pub enabled: bool,
    pub provider: AisProvider,
    pub api_key_configured: bool,
}

impl Default for AisSettings {
    fn default() -> (r: Self)
        ensures
            !r.enabled,
            r.provider == AisProvider::Aisstream,
            !r.api_key_configured,
    {
        AisSettings { enabled: false, provider: AisProvider::Aisstream, api_key_configured: false }
    }
}

#[derive(Clone, Debug, PartialEq)]
pub struct AppPreferences {
    pub unit_system: UnitSystem,
    pub areas: Vec<AlertArea>,
    pub profile: PolicyProfile,
    pub display: DisplaySettings,
    pub whatsapp: WhatsAppSettings,
    pub ais: AisSettings,
}

#[derive(Clone, Debug, PartialEq, Eq)]
pub struct MutationResult {
    pub ok: bool,
    pub message: String,
}

} // verus!
