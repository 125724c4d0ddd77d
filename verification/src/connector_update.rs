//! Atomic updates of a connector: routing it to a CRTC through one of its
//! encoders.
use vstd::prelude::*;

use crate::connector::DrmConnector;
use crate::crtc::DrmCrtc;
use crate::effect::{result_view, DrmAtomicEffect, EffectView};
use crate::encoder::DrmEncoder;
use crate::error::DrmError;
use crate::object_type::{ids_contain, DrmKmsObjectType, KmsObjectId, KmsObjectPropValue};
use crate::plane_update::{add_opt, id_of_value};
use crate::property::{str_eq, DrmProperty};
use crate::store::{masked_ids, DrmKmsObject, DrmKmsObjectStore};

verus! {

/// The change an atomic update requests for a connector, and what checking
/// it worked out: the encoder to use, the encoder to release and the CRTC
/// the connector was on.
#[derive(Debug, Clone, Copy, PartialEq, Eq, Structural)]
pub struct DrmPendingConnState {
    pub crtc_id: Option<Option<KmsObjectId>>,
    pub encoder_id: Option<Option<KmsObjectId>>,
    pub old_encoder_id: Option<KmsObjectId>,
    pub old_crtc_id: Option<KmsObjectId>,
}

impl Default for DrmPendingConnState {
    fn default() -> (s: Self)
        ensures
            s == DrmPendingConnState::new_spec(None),
    {
        DrmPendingConnState { crtc_id: None, encoder_id: None, old_encoder_id: None, old_crtc_id: None }
    }
}

impl DrmPendingConnState {
    /// A request to route the connector to `crtc_id`.
    pub open spec fn new_spec(crtc_id: Option<Option<KmsObjectId>>) -> DrmPendingConnState {
        DrmPendingConnState { crtc_id, encoder_id: None, old_encoder_id: None, old_crtc_id: None }
    }

    pub fn new(crtc_id: Option<Option<KmsObjectId>>) -> (s: Self)
        ensures
            s == Self::new_spec(crtc_id),
    {
        DrmPendingConnState { crtc_id, encoder_id: None, old_encoder_id: None, old_crtc_id: None }
    }
}

/// Whether the encoder `e` can take the CRTC `crtc_id`.
pub open spec fn encoder_takes(objects: DrmKmsObjectStore, e: DrmEncoder, crtc_id: KmsObjectId) -> bool {
    masked_ids(objects.spec_ids(DrmKmsObjectType::Crtc), Some(e.spec_possible_crtcs())).contains(crtc_id)
}

/// The first of the encoders `cands` that can take `crtc_id`; a candidate
/// that is not an encoder fails the search.
pub open spec fn first_encoder_for(objects: DrmKmsObjectStore, cands: Seq<KmsObjectId>, crtc_id: KmsObjectId) -> Result<
    KmsObjectId,
    DrmError,
>
    decreases cands.len(),
{
    if cands.len() == 0 {
        Err(DrmError::NotFound)
    } else if objects.spec_get::<DrmEncoder>(cands[0]) is None {
        Err(DrmError::NotFound)
    } else if encoder_takes(objects, objects.spec_get::<DrmEncoder>(cands[0]).unwrap(), crtc_id) {
        Ok(cands[0])
    } else {
        first_encoder_for(objects, cands.subrange(1, cands.len() as int), crtc_id)
    }
}

/// The CRTC behind the connector's current encoder.
pub open spec fn conn_old_crtc(objects: DrmKmsObjectStore, old_encoder: Option<KmsObjectId>) -> Result<
    Option<KmsObjectId>,
    DrmError,
> {
    match old_encoder {
        Some(e) => match objects.spec_get::<DrmEncoder>(e) {
            Some(enc) => Ok(enc.spec_crtc_id()),
            None => Err(DrmError::NotFound),
        },
        None => Ok(None),
    }
}

/// The encoder a connector uses to reach `final_crtc`: its current encoder
/// if that can take the CRTC, otherwise the first of its possible encoders
/// that can.
pub open spec fn conn_final_encoder(
    objects: DrmKmsObjectStore,
    possible_encoders: u32,
    old_encoder: Option<KmsObjectId>,
    final_crtc: Option<KmsObjectId>,
) -> Result<Option<KmsObjectId>, DrmError> {
    match final_crtc {
        None => Ok(None),
        Some(c) => {
            let search = first_encoder_for(
                objects,
                masked_ids(objects.spec_ids(DrmKmsObjectType::Encoder), Some(possible_encoders)),
                c,
            );
            if objects.spec_get::<DrmCrtc>(c) is None {
                Err(DrmError::NotFound)
            } else {
                match old_encoder {
                    Some(e) => match objects.spec_get::<DrmEncoder>(e) {
                        None => Err(DrmError::NotFound),
                        Some(enc) => if encoder_takes(objects, enc, c) {
                            Ok(Some(e))
                        } else {
                            match search {
                                Ok(x) => Ok(Some(x)),
                                Err(err) => Err(err),
                            }
                        },
                    },
                    None => match search {
                        Ok(x) => Ok(Some(x)),
                        Err(err) => Err(err),
                    },
                }
            }
        },
    }
}

/// The outcome of checking a routing request `p` for connector `conn`,
/// and the request as completed by the check: the CRTC the connector was
/// on, the encoder it will use, and the encoder it releases. A change of
/// CRTC or encoder touches the old and the new CRTC, owes an event on the
/// new one, and needs a modeset. Without a request nothing changes.
pub open spec fn conn_check_spec(objects: DrmKmsObjectStore, conn: DrmConnector, p: DrmPendingConnState) -> (
    Result<EffectView, DrmError>,
    DrmPendingConnState,
) {
    match p.crtc_id {
        None => (Ok((false, Seq::empty(), Seq::empty())), p),
        Some(final_crtc) => {
            let old_encoder = conn.spec_encoder_id();
            match conn_old_crtc(objects, old_encoder) {
                Err(err) => (Err(err), p),
                Ok(old_crtc) => match conn_final_encoder(
                    objects,
                    conn.spec_possible_encoders(),
                    old_encoder,
                    final_crtc,
                ) {
                    Err(err) => (Err(err), DrmPendingConnState { old_crtc_id: old_crtc, ..p }),
                    Ok(final_encoder) => {
                        let changed = old_crtc != final_crtc || old_encoder != final_encoder;
                        (
                            Ok((
                                changed,
                                if changed {
                                    add_opt(add_opt(Seq::empty(), old_crtc), final_crtc)
                                } else {
                                    Seq::empty()
                                },
                                if changed {
                                    add_opt(Seq::empty(), final_crtc)
                                } else {
                                    Seq::empty()
                                },
                            )),
                            DrmPendingConnState {
                                old_crtc_id: old_crtc,
                                encoder_id: Some(final_encoder),
                                old_encoder_id: if old_encoder != final_encoder {
                                    old_encoder
                                } else {
                                    None
                                },
                                ..p
                            },
                        )
                    },
                },
            }
        },
    }
}

impl DrmConnector {
    /// Finds the first of the connector's possible encoders that can take
    /// `crtc_id`.
    fn get_possible_encoder_for_crtc(&self, objects: &DrmKmsObjectStore, crtc_id: KmsObjectId) -> (r: Result<
        KmsObjectId,
        DrmError,
    >)
        requires
            objects.masks_fit(),
        ensures
            r == first_encoder_for(
                *objects,
                masked_ids(objects.spec_ids(DrmKmsObjectType::Encoder), Some(self.spec_possible_encoders())),
                crtc_id,
            ),
    {
        let cands = objects.collect_object_ids(DrmKmsObjectType::Encoder, Some(self.possible_encoders()));
        let mut i: usize = 0;
        assert(cands@.subrange(0, cands@.len() as int) =~= cands@);
        while i < cands.len()
            invariant
                i <= cands@.len(),
                objects.masks_fit(),
                cands@ == masked_ids(objects.spec_ids(DrmKmsObjectType::Encoder), Some(self.spec_possible_encoders())),
                first_encoder_for(*objects, cands@, crtc_id) == first_encoder_for(
                    *objects,
                    cands@.subrange(i as int, cands@.len() as int),
                    crtc_id,
                ),
            decreases cands@.len() - i,
        {
            let encoder_id = cands[i];
            let ghost rest = cands@.subrange(i as int, cands@.len() as int);
            assert(rest[0] == encoder_id);
            assert(rest.subrange(1, rest.len() as int) =~= cands@.subrange(i + 1, cands@.len() as int));
            let encoder = match objects.get_object::<DrmEncoder>(encoder_id) {
                Some(e) => e,
                None => {
                    assert(first_encoder_for(*objects, rest, crtc_id) == Err::<KmsObjectId, DrmError>(DrmError::NotFound));
                    return Err(DrmError::NotFound);
                },
            };
            let crtcs = objects.collect_object_ids(DrmKmsObjectType::Crtc, Some(encoder.possible_crtcs()));
            if ids_contain(crtcs.as_slice(), crtc_id) {
                assert(encoder_takes(*objects, *encoder, crtc_id));
                assert(first_encoder_for(*objects, rest, crtc_id) == Ok::<KmsObjectId, DrmError>(encoder_id));
                return Ok(encoder_id);
            }
            assert(!encoder_takes(*objects, *encoder, crtc_id));
            assert(first_encoder_for(*objects, rest, crtc_id) == first_encoder_for(
                *objects,
                cands@.subrange(i + 1, cands@.len() as int),
                crtc_id,
            ));
            i = i + 1;
        }
        assert(cands@.subrange(i as int, cands@.len() as int).len() == 0);
        Err(DrmError::NotFound)
    }

    /// Applies the write of `prop_value` to `property` to the requested
    /// change: `CRTC_ID` routes the connector to a CRTC, 0 to none; other
    /// names are not connector properties. On failure the request stays as
    /// it was.
    pub fn decode_property(
        &self,
        _objects: &DrmKmsObjectStore,
        property: &DrmProperty,
        prop_value: KmsObjectPropValue,
        pending_state: &mut DrmPendingConnState,
    ) -> (r: Result<(), DrmError>)
        ensures
            property.spec_name()@ != "CRTC_ID"@ ==> r == Err::<(), DrmError>(DrmError::NotFound) && *final(pending_state)
                == *old(pending_state),
            property.spec_name()@ == "CRTC_ID"@ && prop_value > u32::MAX ==> r == Err::<(), DrmError>(
                DrmError::Invalid,
            ) && *final(pending_state) == *old(pending_state),
            property.spec_name()@ == "CRTC_ID"@ && prop_value <= u32::MAX ==> r is Ok && *final(pending_state) == (
            DrmPendingConnState { crtc_id: Some(id_of_value(prop_value)), ..*old(pending_state) }),
    {
        if str_eq(property.name(), "CRTC_ID") {
            if prop_value > 0xffff_ffffu64 {
                return Err(DrmError::Invalid);
            }
            let id = prop_value as u32;
            pending_state.crtc_id = Some(if id != 0 { Some(id) } else { None });
            Ok(())
        } else {
            Err(DrmError::NotFound)
        }
    }

    /// Works out how the requested routing changes the connector: the CRTC
    /// it was on, the encoder it will use, and the encoder it releases. A
    /// change of CRTC or encoder touches the old and the new CRTC, owes an
    /// event on the new one, and needs a modeset. Without a request nothing
    /// changes.
    pub fn check_pending_state(&self, objects: &DrmKmsObjectStore, pending_state: &mut DrmPendingConnState) -> (r:
        Result<DrmAtomicEffect, DrmError>)
        requires
            objects.masks_fit(),
        ensures
            conn_check_spec(*objects, *self, *old(pending_state)) == (result_view(r), *final(pending_state)),
    {
        let mut effect = DrmAtomicEffect::default();
        let final_crtc_id = match pending_state.crtc_id {
            Some(c) => c,
            None => {
                return Ok(effect);
            },
        };
        let snapshot = self.snapshot();
        let old_encoder_id = snapshot.encoder_id();
        let old_crtc_id = match old_encoder_id {
            Some(encoder_id) => match objects.get_object::<DrmEncoder>(encoder_id) {
                Some(encoder) => encoder.crtc_id(),
                None => {
                    return Err(DrmError::NotFound);
                },
            },
            None => None,
        };
        pending_state.old_crtc_id = old_crtc_id;

        let final_encoder_id = match final_crtc_id {
            Some(crtc_id) => {
                if objects.get_object::<DrmCrtc>(crtc_id).is_none() {
                    return Err(DrmError::NotFound);
                }
                let encoder_id = match old_encoder_id {
                    Some(encoder_id) => {
                        let encoder = match objects.get_object::<DrmEncoder>(encoder_id) {
                            Some(e) => e,
                            None => {
                                return Err(DrmError::NotFound);
                            },
                        };
                        let crtcs = objects.collect_object_ids(DrmKmsObjectType::Crtc, Some(encoder.possible_crtcs()));
                        if ids_contain(crtcs.as_slice(), crtc_id) {
                            encoder_id
                        } else {
                            self.get_possible_encoder_for_crtc(objects, crtc_id)?
                        }
                    },
                    None => self.get_possible_encoder_for_crtc(objects, crtc_id)?,
                };
                Some(encoder_id)
            },
            None => None,
        };
        pending_state.encoder_id = Some(final_encoder_id);

        let crtc_changed = old_crtc_id != final_crtc_id;
        let encoder_changed = old_encoder_id != final_encoder_id;
        let connector_changed = crtc_changed || encoder_changed;

        pending_state.old_encoder_id = if encoder_changed {
            old_encoder_id
        } else {
            None
        };

        if connector_changed {
            if let Some(old_crtc_id) = old_crtc_id {
                effect.add_affected_crtc(old_crtc_id);
            }
            if let Some(final_crtc_id) = final_crtc_id {
                effect.add_affected_crtc(final_crtc_id);
                effect.add_event_crtc(final_crtc_id);
            }
            effect.set_request_modeset();
        }
        Ok(effect)
    }
}

/// The objects after committing a routing request `p` for connector
/// `conn_id`, and the outcome: release the old encoder, then, for a CRTC,
/// bind the chosen encoder to it and the connector to the encoder; for no
/// CRTC, unbind the connector. A step that fails leaves the steps before
/// it done.
pub open spec fn conn_commit_spec(objects: DrmKmsObjectStore, conn_id: KmsObjectId, p: DrmPendingConnState) -> (
    Result<(), DrmError>,
    Map<KmsObjectId, DrmKmsObject>,
) {
    let objs = objects.spec_objects();
    if objects.spec_get::<DrmConnector>(conn_id) is None {
        (Err(DrmError::NotFound), objs)
    } else {
        let conn = objects.spec_get::<DrmConnector>(conn_id).unwrap();
        match p.crtc_id {
            None => (Ok(()), objs),
            Some(crtc) => {
                let released = match p.old_encoder_id {
                    Some(e) => match objects.spec_get::<DrmEncoder>(e) {
                        Some(enc) => Ok(objs.insert(e, DrmKmsObject::Encoder(enc.spec_with_crtc(None)))),
                        None => Err(()),
                    },
                    None => Ok(objs),
                };
                match released {
                    Err(()) => (Err(DrmError::NotFound), objs),
                    Ok(objs1) => match crtc {
                        None => (Ok(()), objs1.insert(conn_id, DrmKmsObject::Connector(conn.spec_with_encoder(None)))),
                        Some(c) => match p.encoder_id {
                            Some(Some(e)) => match objects.spec_get::<DrmEncoder>(e) {
                                Some(_) => {
                                    let enc = match objs1[e] {
                                        DrmKmsObject::Encoder(x) => x,
                                        _ => arbitrary(),
                                    };
                                    (
                                        Ok(()),
                                        objs1.insert(conn_id, DrmKmsObject::Connector(conn.spec_with_encoder(Some(e)))).insert(
                                            e,
                                            DrmKmsObject::Encoder(enc.spec_with_crtc(Some(c))),
                                        ),
                                    )
                                },
                                None => (Err(DrmError::NotFound), objs1),
                            },
                            _ => (Err(DrmError::Invalid), objs1),
                        },
                    },
                }
            },
        }
    }
}

impl DrmKmsObjectStore {
    /// Commits a checked routing request for the connector under `conn_id`.
    pub fn commit_connector_state(&mut self, conn_id: KmsObjectId, pending_state: &DrmPendingConnState) -> (r: Result<
        (),
        DrmError,
    >)
        requires
            old(self).wf(),
        ensures
            final(self).wf(),
            (r, final(self).spec_objects()) == conn_commit_spec(*old(self), conn_id, *pending_state),
            forall|t: DrmKmsObjectType| #[trigger] final(self).spec_ids(t) == old(self).spec_ids(t),
            final(self).spec_next_id() == old(self).spec_next_id(),
    {
        let ghost s0 = *self;
        if self.get_object::<DrmConnector>(conn_id).is_none() {
            return Err(DrmError::NotFound);
        }
        let crtc_id = match pending_state.crtc_id {
            Some(c) => c,
            None => {
                return Ok(());
            },
        };
        if let Some(old_encoder_id) = pending_state.old_encoder_id {
            if self.get_object::<DrmEncoder>(old_encoder_id).is_none() {
                return Err(DrmError::NotFound);
            }
            self.set_encoder_crtc(old_encoder_id, None);
        }
        let ghost s1 = *self;
        assert(s1.spec_get::<DrmConnector>(conn_id) == s0.spec_get::<DrmConnector>(conn_id));
        let crtc_id = match crtc_id {
            Some(c) => c,
            None => {
                self.set_connector_encoder(conn_id, None);
                return Ok(());
            },
        };
        let encoder_id = match pending_state.encoder_id {
            Some(Some(e)) => e,
            _ => {
                return Err(DrmError::Invalid);
            },
        };
        if self.get_object::<DrmEncoder>(encoder_id).is_none() {
            return Err(DrmError::NotFound);
        }
        self.set_connector_encoder(conn_id, Some(encoder_id));
        self.set_encoder_crtc(encoder_id, Some(crtc_id));
        Ok(())
    }
}

} // verus!
