//! The daemon's configuration: overlay notification preferences, as a
//! plain struct handed in by the embedding application.
use vstd::prelude::*;

verus! {

/// Everything configurable.
pub struct Configuration {
    pub overlay: OverlayConfiguration,
}

/// The overlay's preferences.
pub struct OverlayConfiguration {
    pub notification_volume: u32,
    pub position: OverlayPosition,
    pub notifications: OverlayNotifications,
}

/// Where overlay notifications appear.
#[derive(PartialEq, Eq, Structural, Clone, Copy, Debug)]
pub enum OverlayPosition {
    BottomRight,
    BottomLeft,
    TopRight,
    TopLeft,
}

/// Which notification kinds are enabled and audible.
pub struct OverlayNotifications {
    pub chat: OverlayNotificationConfig,
    pub friend_online: OverlayNotificationConfig,
    pub friend_invite: OverlayNotificationConfig,
    pub friend_game_start: OverlayNotificationConfig,
    pub game_invite: OverlayNotificationConfig,
}

/// One notification kind's switches.
pub struct OverlayNotificationConfig {
    pub enabled: bool,
    pub sound: bool,
}

/// The default of every boolean preference: on.
pub fn default_true() -> (r: bool)
    ensures
        r,
{
    true
}

/// The default notification volume.
pub fn default_volume() -> (r: u32)
    ensures
        r == 50,
{
    50
}

impl OverlayPosition {
    /// The position's configuration name.
    pub fn position_name(&self) -> (r: String)
        ensures
            (*self == OverlayPosition::TopLeft ==> r@ == "top_left"@),
            (*self == OverlayPosition::TopRight ==> r@ == "top_right"@),
            (*self == OverlayPosition::BottomLeft ==> r@ == "bottom_left"@),
            (*self == OverlayPosition::BottomRight ==> r@ == "bottom_right"@),
    {
        match self {
            Self::TopLeft => String::from_str("top_left"),
            Self::TopRight => String::from_str("top_right"),
            Self::BottomLeft => String::from_str("bottom_left"),
            Self::BottomRight => String::from_str("bottom_right"),
        }
    }
}

impl Default for OverlayPosition {
    /// Notifications sit at the bottom right unless configured.
    fn default() -> (r: Self)
        ensures
            r == OverlayPosition::BottomRight,
    {
        OverlayPosition::BottomRight
    }
}

impl Default for OverlayNotificationConfig {
    /// A notification kind starts enabled and audible.
    fn default() -> (r: Self)
        ensures
            r.enabled && r.sound,
    {
        OverlayNotificationConfig { enabled: true, sound: true }
    }
}

impl Default for OverlayNotifications {
    /// Every notification kind starts at its default.
    fn default() -> (r: Self)
        ensures
            r.chat.enabled && r.chat.sound,
            r.friend_online.enabled && r.friend_online.sound,
            r.friend_invite.enabled && r.friend_invite.sound,
            r.friend_game_start.enabled && r.friend_game_start.sound,
            r.game_invite.enabled && r.game_invite.sound,
    {
        OverlayNotifications {
            chat: OverlayNotificationConfig { enabled: true, sound: true },
            friend_online: OverlayNotificationConfig { enabled: true, sound: true },
            friend_invite: OverlayNotificationConfig { enabled: true, sound: true },
            friend_game_start: OverlayNotificationConfig { enabled: true, sound: true },
            game_invite: OverlayNotificationConfig { enabled: true, sound: true },
        }
    }
}

impl Default for OverlayConfiguration {
    /// Half volume, bottom right, everything on.
    fn default() -> (r: Self)
        ensures
            r.notification_volume == 50,
            r.position == OverlayPosition::BottomRight,
            r.notifications.chat.enabled && r.notifications.chat.sound,
    {
        OverlayConfiguration {
            notification_volume: 50,
            position: OverlayPosition::BottomRight,
            notifications: OverlayNotifications {
                chat: OverlayNotificationConfig { enabled: true, sound: true },
                friend_online: OverlayNotificationConfig { enabled: true, sound: true },
                friend_invite: OverlayNotificationConfig { enabled: true, sound: true },
                friend_game_start: OverlayNotificationConfig { enabled: true, sound: true },
                game_invite: OverlayNotificationConfig { enabled: true, sound: true },
            },
        }
    }
}

impl Default for Configuration {
    /// A configuration entirely at its defaults.
    fn default() -> (r: Self)
        ensures
            r.overlay.notification_volume == 50,
            r.overlay.position == OverlayPosition::BottomRight,
    {
        Configuration {
            overlay: OverlayConfiguration {
                notification_volume: 50,
                position: OverlayPosition::BottomRight,
                notifications: OverlayNotifications {
                    chat: OverlayNotificationConfig { enabled: true, sound: true },
                    friend_online: OverlayNotificationConfig { enabled: true, sound: true },
                    friend_invite: OverlayNotificationConfig { enabled: true, sound: true },
                    friend_game_start: OverlayNotificationConfig { enabled: true, sound: true },
                    game_invite: OverlayNotificationConfig { enabled: true, sound: true },
                },
            },
        }
    }
}

} // verus!
