//! The types that messages are made of.

pub mod roles;
pub mod value;

pub use self::roles::{
    BrokerFeatures, BrokerRole, CalleeRole, CallerRole, ClientRoles, ClientRolesView,
    DealerFeatures, DealerRole, PublisherRole, RouterRoles, RouterRolesView, SubscriberFeatures,
    SubscriberRole,
};
pub use self::value::{Dict, List, Value, ValueView};
