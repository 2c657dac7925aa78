//! Verified core of the BrickellStatus desktop runtime: preference rules,
//! the shipped feed catalog, channel and source rules, and the numbers and
//! JSON-shaped values those rules read.

pub mod ais;
pub mod area_context;
pub mod availability;
pub mod bridge;
pub mod catalog;
pub mod changes;
pub mod clock;
pub mod item;
pub mod digest;
pub mod decimal_text;
pub mod evidence;
pub mod health;
pub mod dto;
pub mod json;
pub mod location;
pub mod material;
pub mod news;
pub mod notice;
pub mod number;
pub mod preferences;
pub mod priority;
pub mod ranking;
pub mod refresh;
pub mod revision;
pub mod rules;
pub mod runtime;
pub mod shadow;
pub mod signal;
pub mod snapshot;
pub mod summary;
pub mod syndication;
pub mod sources;
pub mod text;
pub mod vessels;

pub use catalog::{CatalogEntry, CatalogGroup, CatalogSection, FeedCatalog};
pub use dto::{
    BridgeStateDto,
    UrgencyDto,
    ChannelPriorityDto,
    AvailabilityDto,
    AisConnectionStateDto,
    AisStreamStatusDto,
    DeliveryStateDto,
    SurfacePresence,
    InterruptPreset,
    DestinationIdDto,
    EvidenceStrip,
    EvidenceStateDto,
    DecisionSnapshot,
    ChannelKindDto,
    ChannelSignalDto,
    ChannelNoticeDto,
    ChannelSnapshot,
    OutputStateDto,
    OutputSnapshot,
    DispatchRecord,
    SystemStatusDto,
    SourceHealth,
    SystemHealth,
    VesselMovementDto,
    KnownOpenerDto,
    ObservedBridgeStateDto,
    BridgeRelationDto,
    BridgeStateIntervalDto,
    ChannelPreference,
    AlertAreaSource,
    AlertArea,
    LocationSearchResult,
    QuietHours,
    ProfilePreset,
    UnitSystem,
    PolicyProfile,
    DisplayTransport,
    DisplaySettings,
    DisplayOrientation,
    WhatsAppRecipientConsent,
    WhatsAppSettings,
    AisProvider,
    AisSettings,
    AppPreferences,
    MutationResult,
};
pub use json::{JsonMember, JsonNumber, JsonObject, JsonValue};
pub use number::{Decimal, Real};
pub use bridge::{
    detect_outbound_progress, update_bridge_transitions, BridgeStateTransition,
    DetectedOutboundProgress, OutboundProgressStage,
};
pub use item::{CollectorItem, ItemKind, Location, SourceLink};
pub use preferences::{
    default_alert_areas, default_channel_preferences, standardize_alert_policy,
    validate_preferences, whatsapp_consent_is_current, PreferencesError,
};
pub use runtime::{
    backoff_for, RefreshReport, RuntimeConfig, RuntimeError, SourceRegistration, TimeSpan,
};
pub use signal::{bounded_optional_signal_text, bounded_signal_text, signal_text};
pub use location::{
    location_search_results, optional_nonempty, required_nonempty, validated_query,
    validated_user_agent, LocationSearchError,
};
