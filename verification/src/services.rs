//! Service layer: the container the request handlers are given.

use vstd::prelude::*;

verus! {

use crate::csrf::CsrfSecret;
use crate::csrf::SECRET_BYTES;
use crate::health::DefaultHealthService;
use crate::health::HealthService;
use crate::items::InMemoryItemService;
use crate::items::ItemService;
use crate::items::seed_items;
use crate::session::InMemorySessionStore;
use crate::session::SessionModel;
use crate::session::SessionStore;

/// Application services container.
pub struct Services {
    pub health: DefaultHealthService,
    pub items: InMemoryItemService,
    pub sessions: InMemorySessionStore,
    pub csrf: CsrfSecret,
}

impl Services {
    /// Create services with in-memory implementations: seeded items, an
    /// empty session store and a fresh CSRF secret.
    pub fn new_default(start_time: u64) -> (services: Services)
        ensures
            services.health.start() == start_time,
            services.items.inv(),
            services.items.model() == seed_items(),
            services.items.next_id() == 4,
            services.sessions.inv(),
            services.sessions.model() == Map::<Seq<char>, SessionModel>::empty(),
            services.csrf@.len() == SECRET_BYTES,
    {
        Services {
            health: DefaultHealthService::new(start_time),
            items: InMemoryItemService::new(),
            sessions: InMemorySessionStore::new(),
            csrf: CsrfSecret::generate(),
        }
    }
}

} // verus!
