//! The vendor-platform SDK's data: platform configuration, access-token
//! records, and the in-process token cache with its freshness rule. The
//! HTTP call that fetches a fresh token is the application's work.
use vstd::prelude::*;

use crate::queue::HandlerRegistry;

verus! {

/// Which vendor platform a configuration addresses.
#[derive(Debug, Clone)]
pub enum PlatformType {
    /// An official account.
    OfficialAccount,
    /// The open platform.
    OpenPlatfrom,
    /// A mini program.
    MiniProgram,
}

/// The vendor SDK's configuration.
#[derive(Debug, Clone)]
pub struct WechatConfig {
    /// The application's identifier.
    pub app_id: String,
    /// The official account bound to it, used for messages.
    pub offical_appid: String,
    /// The application's secret.
    pub secret: String,
    /// The token given at interface configuration, used to check
    /// signatures.
    pub token: String,
    /// Which platform the configuration addresses.
    pub platform: PlatformType,
    /// The merchant identifier.
    pub mch_id: String,
    /// The merchant certificate's private key.
    pub private_key: String,
    /// The merchant certificate's path.
    pub certificate: String,
    /// The API secret.
    pub secret_key: String,
    /// Where payment notifications go.
    pub notify_url: String,
    /// Where refund notifications go; falls back to `notify_url`.
    pub refund_notify_url: String,
}

impl Default for WechatConfig {
    /// Every field empty, addressed at the mini-program platform.
    fn default() -> (r: Self)
        ensures
            r.app_id@.len() == 0,
            r.offical_appid@.len() == 0,
            r.secret@.len() == 0,
            r.token@.len() == 0,
            r.platform is MiniProgram,
            r.mch_id@.len() == 0,
            r.private_key@.len() == 0,
            r.certificate@.len() == 0,
            r.secret_key@.len() == 0,
            r.notify_url@.len() == 0,
            r.refund_notify_url@.len() == 0,
    {
        WechatConfig {
            app_id: String::new(),
            offical_appid: String::new(),
            secret: String::new(),
            token: String::new(),
            platform: PlatformType::MiniProgram,
            mch_id: String::new(),
            private_key: String::new(),
            certificate: String::new(),
            secret_key: String::new(),
            notify_url: String::new(),
            refund_notify_url: String::new(),
        }
    }
}

/// What identifies an application when it asks the vendor for an access
/// token.
#[derive(Debug, Clone)]
pub struct TokioAccessToken {
    /// The application's type, handed on as the grant type.
    pub app_type: String,
    /// The application's identifier.
    pub app_id: String,
    /// The application's secret.
    pub secret: String,
}

/// One access token as the vendor granted it.
#[derive(Debug, Clone)]
pub struct TokioToken {
    /// The token itself.
    pub access_token: String,
    /// When the token was obtained.
    pub create_time: u64,
    /// For how long past `create_time` the vendor grants it.
    pub expires: i64,
}

impl TokioToken {
    /// An exact copy, field for field.
    pub fn duplicate(&self) -> (r: Self)
        ensures
            r == *self,
    {
        TokioToken {
            access_token: self.access_token.clone(),
            create_time: self.create_time,
            expires: self.expires,
        }
    }
}

impl Default for TokioToken {
    /// An empty token that was never granted.
    fn default() -> (r: Self)
        ensures
            r.access_token@.len() == 0,
            r.create_time == 0,
            r.expires == 0,
    {
        TokioToken { access_token: String::new(), create_time: 0, expires: 0 }
    }
}

/// A token still counts as fresh at `now` when a thousand time units
/// remain of its granted lifetime.
pub open spec fn token_fresh(t: TokioToken, now: u64) -> bool {
    now + 1000 < t.create_time + t.expires
}

/// Whether a token still counts as fresh at `now`.
pub fn token_is_fresh(t: &TokioToken, now: u64) -> (r: bool)
    ensures
        r == token_fresh(*t, now),
{
    (now as i128) + 1000 < (t.create_time as i128) + (t.expires as i128)
}

/// The process-wide cache of granted tokens, one per application
/// identifier, the latest grant winning.
pub struct TokioTokenCache {
    /// The grants, keyed by application identifier.
    pub map: HandlerRegistry<TokioToken>,
}

impl TokioTokenCache {
    /// An empty cache.
    pub fn new() -> (r: Self)
        ensures
            r.map.map_view() == Map::<Seq<char>, TokioToken>::empty(),
    {
        TokioTokenCache { map: HandlerRegistry::new() }
    }

    /// Stores a grant for an application, replacing an earlier one.
    pub fn set(&mut self, app_id: &str, val: TokioToken)
        ensures
            final(self).map.map_view() == old(self).map.map_view().insert(app_id@, val),
    {
        self.map.register(app_id, val);
    }

    /// The cached grant for an application, provided it is still fresh at
    /// `now`; a stale or missing grant reads as nothing, and the caller
    /// then asks the vendor anew.
    pub fn get_cached(&self, app_id: &str, now: u64) -> (r: Option<TokioToken>)
        ensures
            match r {
                Some(t) => self.map.map_view().contains_key(app_id@) && t
                    == self.map.map_view()[app_id@] && token_fresh(t, now),
                None => !self.map.map_view().contains_key(app_id@) || !token_fresh(
                    self.map.map_view()[app_id@],
                    now,
                ),
            },
    {
        match self.map.lookup(app_id) {
            Some(t) => {
                if token_is_fresh(t, now) {
                    Some(t.duplicate())
                } else {
                    None
                }
            },
            None => None,
        }
    }
}

impl TokioAccessToken {
    /// A token request for one application.
    pub fn new(app_type: &str, app_id: &str, secret: &str) -> (r: TokioAccessToken)
        ensures
            r.app_type@ == app_type@,
            r.app_id@ == app_id@,
            r.secret@ == secret@,
    {
        TokioAccessToken {
            app_type: app_type.to_owned(),
            app_id: app_id.to_owned(),
            secret: secret.to_owned(),
        }
    }

    /// Empties the given token cache.
    pub fn clear(cache: &mut TokioTokenCache)
        ensures
            final(cache).map.map_view() == Map::<Seq<char>, TokioToken>::empty(),
    {
        cache.map.clear();
    }
}

} // verus!
