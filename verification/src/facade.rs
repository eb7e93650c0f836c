//! The main entry point of the library: one object that offers the catalog
//! and playback use cases together.
use crate::catalog_service::CatalogService;
use crate::playback::PlaybackController;
use vstd::prelude::*;

verus! {

/// The unified interface of the library.
pub trait CoreFacade {
    type Catalog: CatalogService;

    /// The catalog use cases.
    fn get_catalog_service(&self) -> &Self::Catalog;

    /// Plays a channel.
    fn play(&mut self, channel_id: &str);

    /// Pauses playback.
    fn pause(&mut self);

    /// Stops playback.
    fn stop(&mut self);

    /// Seeks playback to `position` seconds.
    fn seek(&mut self, position: u32);

    /// Reloads the catalog.
    fn refresh(&mut self);
}

/// The facade over a catalog service and a playback controller.
pub struct IptvFacade<S: CatalogService, P: PlaybackController> {
    pub catalog_service: S,
    pub playback_controller: P,
}

impl<S: CatalogService, P: PlaybackController> IptvFacade<S, P> {
    pub fn new(catalog: S, player: P) -> (r: Self)
        ensures
            r.catalog_service == catalog,
            r.playback_controller == player,
    {
        IptvFacade { catalog_service: catalog, playback_controller: player }
    }
}

impl<S: CatalogService, P: PlaybackController> CoreFacade for IptvFacade<S, P> {
    type Catalog = S;

    fn get_catalog_service(&self) -> (r: &S)
        ensures
            *r == self.catalog_service,
    {
        &self.catalog_service
    }

    /// Plays a channel through the playback controller; the catalog is not
    /// touched.
    fn play(&mut self, channel_id: &str)
        ensures
            old(self).playback_controller.spec_plays(final(self).playback_controller, channel_id@),
            final(self).catalog_service == old(self).catalog_service,
    {
        self.playback_controller.play(channel_id);
    }

    /// Pauses through the playback controller; the catalog is not touched.
    fn pause(&mut self)
        ensures
            old(self).playback_controller.spec_pauses(final(self).playback_controller),
            final(self).catalog_service == old(self).catalog_service,
    {
        self.playback_controller.pause();
    }

    /// Stops through the playback controller; the catalog is not touched.
    fn stop(&mut self)
        ensures
            old(self).playback_controller.spec_stops(final(self).playback_controller),
            final(self).catalog_service == old(self).catalog_service,
    {
        self.playback_controller.stop();
    }

    /// Seeks through the playback controller; the catalog is not touched.
    fn seek(&mut self, position: u32)
        ensures
            old(self).playback_controller.spec_seeks(final(self).playback_controller, position),
            final(self).catalog_service == old(self).catalog_service,
    {
        self.playback_controller.seek(position);
    }

    /// Refreshes the catalog; playback is not touched.
    fn refresh(&mut self)
        ensures
            old(self).catalog_service.spec_refreshes_to(final(self).catalog_service),
            final(self).playback_controller == old(self).playback_controller,
    {
        self.catalog_service.refresh();
    }
}

} // verus!
