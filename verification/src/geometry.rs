//! Geometry objects of the core layer, and their userdata discipline.
//!
//! A geometry object has a capacity fixed at creation: adding polygons
//! beyond the maximum polygon or vertex count fails rather than growing.
//! Its native userdata slot carries only an opaque key into the side table;
//! the release path must capture that key before the native object goes
//! away, then release, then clean the table, so that no association
//! outlives its object.

use vstd::bytes::spec_u32_to_le_bytes;
use vstd::bytes::u32_to_le_bytes;
use vstd::prelude::*;

use crate::error::FmodError;
use crate::error::FMOD_ERR_INVALID_HANDLE;
use crate::error::FMOD_ERR_INVALID_PARAM;
use crate::error::FMOD_ERR_MEMORY;
use crate::handles::CoreSystem;
use crate::model::vertex_total;
use crate::model::GeometrySlot;
use crate::model::Studio;
use crate::model::COUNT_CAP;

verus! {

/// A handle to a geometry object.
#[derive(Clone, Copy, Debug, PartialEq, Eq, Structural)]
pub struct Geometry {
    pub raw: usize,
}

/// Whether a geometry handle refers to an object the live system holds.
pub open spec fn geometry_live(st: Studio, raw: usize) -> bool {
    st.live && exists|g: int|
        0 <= g < st.geometries@.len() && (#[trigger] st.geometries@[g]).raw == raw
}

impl CoreSystem {
    /// Creates a geometry object with a fixed capacity: the maximum polygon
    /// count and the maximum total vertex count, immutable thereafter.
    pub fn create_geometry(&self, st: &mut Studio, max_polygons: i32, max_vertices: i32) -> (r:
        Result<Geometry, FmodError>)
        requires
            old(st).wf(),
        ensures
            final(st).wf(),
            r is Err ==> *final(st) == *old(st),
            !(old(st).live && self.raw == old(st).core_raw) ==> r is Err && r->Err_0.code
                == FMOD_ERR_INVALID_HANDLE,
            old(st).live && self.raw == old(st).core_raw && (max_polygons < 0 || max_vertices
                < 0) ==> r is Err && r->Err_0.code == FMOD_ERR_INVALID_PARAM,
            old(st).live && self.raw == old(st).core_raw && 0 <= max_polygons && 0
                <= max_vertices ==> r is Ok || r->Err_0.code == FMOD_ERR_MEMORY,
            r is Ok ==> {
                let g = final(st).geometries@.last();
                &&& final(st).geometries@.len() == old(st).geometries@.len() + 1
                &&& forall|i: int|
                    0 <= i < old(st).geometries@.len() ==> final(st).geometries@[i] == old(st).geometries@[i]
                &&& r->Ok_0.raw == g.raw
                &&& g.raw == old(st).next_raw
                &&& g.max_polygons == max_polygons
                &&& g.max_vertices == max_vertices
                &&& g.polygons@.len() == 0
                &&& g.active
                &&& g.userdata_slot == 0
                &&& *final(st) == (Studio {
                    geometries: final(st).geometries,
                    next_raw: final(st).next_raw,
                    ..*old(st)
                })
                &&& !geometry_live(*old(st), g.raw)
            },
    {
        if !st.live || self.raw != st.core_raw {
            return Err(FmodError { code: FMOD_ERR_INVALID_HANDLE });
        }
        if max_polygons < 0 || max_vertices < 0 {
            return Err(FmodError { code: FMOD_ERR_INVALID_PARAM });
        }
        if st.geometries.len() >= COUNT_CAP || st.next_raw == usize::MAX {
            return Err(FmodError { code: FMOD_ERR_MEMORY });
        }
        let ghost pre = *st;
        let raw = st.next_raw;
        let slot = GeometrySlot {
            raw,
            max_polygons,
            max_vertices,
            active: true,
            polygons: Vec::new(),
            vertex_count: 0,
            userdata_slot: 0,
        };
        st.geometries.push(slot);
        st.next_raw = st.next_raw + 1;
        proof {
            let n = st.geometries@.len() - 1;
            assert forall|i: int, j: int|
                0 <= i < j < st.geometries@.len() implies (#[trigger] st.geometries@[
            i]).raw != (#[trigger] st.geometries@[j]).raw by {
                if j < n {
                    assert(pre.geometries@[i].raw != pre.geometries@[j].raw);
                } else {
                    assert(pre.geometries@[i].wf(pre.next_raw));
                }
            }
            assert forall|i: int|
                0 <= i < st.geometries@.len() implies (#[trigger] st.geometries@[i]).wf(
                st.next_raw,
            ) by {
                if i < n {
                    assert(pre.geometries@[i].wf(pre.next_raw));
                }
            }
            assert forall|i: int|
                0 <= i < st.banks@.len() implies (#[trigger] st.banks@[i]).wf(
                st.next_raw,
            ) by {
                assert(pre.banks@[i].wf(pre.next_raw));
            }
            assert(st.wf());
        }
        Ok(Geometry { raw })
    }
}

impl Geometry {
    /// Wraps a raw handle value as received from the ABI.
    pub fn from_ffi(value: usize) -> (r: Geometry)
        ensures
            r.raw == value,
    {
        Geometry { raw: value }
    }

    /// The raw handle value, for handing back across the ABI.
    pub fn into_ffi(self) -> (r: usize)
        ensures
            r == self.raw,
    {
        self.raw
    }

    /// Resolves this handle to its slot position, when the system holds it.
    fn locate(&self, st: &Studio) -> (r: Result<usize, FmodError>)
        requires
            st.wf(),
        ensures
            r is Ok <==> geometry_live(*st, self.raw),
            r is Err ==> r->Err_0.code == FMOD_ERR_INVALID_HANDLE,
            r is Ok ==> {
                &&& 0 <= r->Ok_0 < st.geometries@.len()
                &&& st.geometries@[r->Ok_0 as int].raw == self.raw
                &&& st.spec_find_geometry(self.raw) == Some(r->Ok_0 as int)
            },
    {
        if !st.live {
            return Err(FmodError { code: FMOD_ERR_INVALID_HANDLE });
        }
        match st.find_geometry(self.raw) {
            Some(g) => Ok(g),
            None => Err(FmodError { code: FMOD_ERR_INVALID_HANDLE }),
        }
    }

    /// Replaces this geometry's slot with a variant that keeps its handle,
    /// capacity and polygon obligations, preserving well-formedness.
    proof fn lemma_wf_update(pre: Studio, post: Studio, g: int)
        requires
            pre.wf(),
            0 <= g < pre.geometries@.len(),
            post == (Studio { geometries: post.geometries, ..pre }),
            post.geometries@ == pre.geometries@.update(g, post.geometries@[g]),
            post.geometries@[g].raw == pre.geometries@[g].raw,
            post.geometries@[g].wf(post.next_raw),
        ensures
            post.wf(),
    {
        assert forall|i: int|
            0 <= i < post.geometries@.len() implies (#[trigger] post.geometries@[i]).wf(
            post.next_raw,
        ) by {
            if i != g {
                assert(pre.geometries@[i].wf(pre.next_raw));
            }
        }
        assert forall|i: int, j: int|
            0 <= i < j < post.geometries@.len() implies (#[trigger] post.geometries@[
        i]).raw != (#[trigger] post.geometries@[j]).raw by {
            assert(pre.geometries@[i].raw != pre.geometries@[j].raw);
        }
        assert(post.wf());
    }

    /// Adds a polygon given by its vertex count.
    ///
    /// A polygon needs at least three vertices; adding fails once the
    /// object is at its maximum polygon count or the polygon's vertices
    /// would push the total past the maximum vertex count. On success the
    /// polygon's position is returned.
    pub fn add_polygon(&self, st: &mut Studio, double_sided: bool, vertex_count: i32) -> (r:
        Result<i32, FmodError>)
        requires
            old(st).wf(),
        ensures
            final(st).wf(),
            r is Err ==> *final(st) == *old(st),
            !geometry_live(*old(st), self.raw) ==> r is Err && r->Err_0.code
                == FMOD_ERR_INVALID_HANDLE,
            r is Ok ==> exists|g: int|
                0 <= g < old(st).geometries@.len() && (#[trigger] old(st).geometries@[
                    g]).raw == self.raw && r->Ok_0 == old(st).geometries@[g].polygons@.len()
                    && final(st).geometries@[g].polygons@ == old(st).geometries@[
                    g].polygons@.push(vertex_count) && final(st).geometries@ == old(st).geometries@.update(
                    g,
                    (GeometrySlot {
                        polygons: final(st).geometries@[g].polygons,
                        vertex_count: final(st).geometries@[g].vertex_count,
                        ..old(st).geometries@[g]
                    }),
                ) && *final(st) == (Studio { geometries: final(st).geometries, ..*old(st) }),
            geometry_live(*old(st), self.raw) && vertex_count < 3 ==> r is Err
                && r->Err_0.code == FMOD_ERR_INVALID_PARAM,
            old(st).live && vertex_count >= 3 && (exists|g: int|
                0 <= g < old(st).geometries@.len() && (#[trigger] old(st).geometries@[
                    g]).raw == self.raw && (old(st).geometries@[g].polygons@.len() >= old(st).geometries@[g].max_polygons || vertex_count + old(st).geometries@[
                    g].vertex_count > old(st).geometries@[g].max_vertices)) ==> r is Err
                && r->Err_0.code == FMOD_ERR_MEMORY,
            old(st).live && vertex_count >= 3 && (exists|g: int|
                0 <= g < old(st).geometries@.len() && (#[trigger] old(st).geometries@[
                    g]).raw == self.raw && old(st).geometries@[g].polygons@.len() < old(st).geometries@[g].max_polygons && vertex_count + old(st).geometries@[
                    g].vertex_count <= old(st).geometries@[g].max_vertices) ==> r is Ok,
    {
        let g = self.locate(st)?;
        proof {
            assert forall|gg: int|
                0 <= gg < st.geometries@.len() && (#[trigger] st.geometries@[gg]).raw
                == self.raw implies gg == g as int by {
                st.lemma_geometry_at(self.raw, gg);
            }
        }
        if vertex_count < 3 {
            return Err(FmodError { code: FMOD_ERR_INVALID_PARAM });
        }
        let slot_ref = &st.geometries[g];
        if slot_ref.polygons.len() as i32 >= slot_ref.max_polygons {
            return Err(FmodError { code: FMOD_ERR_MEMORY });
        }
        if (vertex_count as i64) + (slot_ref.vertex_count as i64) > (slot_ref.max_vertices
            as i64) {
            return Err(FmodError { code: FMOD_ERR_MEMORY });
        }
        let _ = double_sided;
        let ghost pre = *st;
        let mut slot = st.geometries.remove(g);
        let index = slot.polygons.len() as i32;
        slot.polygons.push(vertex_count);
        slot.vertex_count = slot.vertex_count + vertex_count;
        st.geometries.insert(g, slot);
        proof {
            assert(st.geometries@ =~= pre.geometries@.update(g as int, st.geometries@[
                g as int]));
            assert(st.geometries@[g as int].polygons@.drop_last() =~= pre.geometries@[
                g as int].polygons@);
            assert(vertex_total(st.geometries@[g as int].polygons@) == vertex_total(
                pre.geometries@[g as int].polygons@,
            ) + vertex_count);
            Geometry::lemma_wf_update(pre, *st, g as int);
        }
        Ok(index)
    }

    /// Sets whether the object is processed by the geometry engine.
    pub fn set_active(&self, st: &mut Studio, active: bool) -> (r: Result<(), FmodError>)
        requires
            old(st).wf(),
        ensures
            final(st).wf(),
            r is Err ==> *final(st) == *old(st) && r->Err_0.code == FMOD_ERR_INVALID_HANDLE,
            r is Ok <==> geometry_live(*old(st), self.raw),
            r is Ok ==> exists|g: int|
                0 <= g < old(st).geometries@.len() && (#[trigger] old(st).geometries@[
                    g]).raw == self.raw && final(st).geometries@ == old(st).geometries@.update(
                    g,
                    (GeometrySlot { active, ..old(st).geometries@[g] }),
                ) && *final(st) == (Studio { geometries: final(st).geometries, ..*old(st) }),
    {
        let g = self.locate(st)?;
        let ghost pre = *st;
        let mut slot = st.geometries.remove(g);
        slot.active = active;
        st.geometries.insert(g, slot);
        proof {
            assert(st.geometries@ =~= pre.geometries@.update(g as int, st.geometries@[
                g as int]));
            Geometry::lemma_wf_update(pre, *st, g as int);
        }
        Ok(())
    }

    /// Whether the object is processed by the geometry engine.
    pub fn get_active(&self, st: &Studio) -> (r: Result<bool, FmodError>)
        requires
            st.wf(),
        ensures
            r is Ok <==> geometry_live(*st, self.raw),
            r is Err ==> r->Err_0.code == FMOD_ERR_INVALID_HANDLE,
            r is Ok ==> exists|g: int|
                0 <= g < st.geometries@.len() && (#[trigger] st.geometries@[g]).raw
                    == self.raw && r->Ok_0 == st.geometries@[g].active,
    {
        let g = self.locate(st)?;
        Ok(st.geometries[g].active)
    }

    /// The capacity fixed at creation: maximum polygons and maximum total
    /// vertices.
    pub fn get_max_polygons(&self, st: &Studio) -> (r: Result<(i32, i32), FmodError>)
        requires
            st.wf(),
        ensures
            r is Ok <==> geometry_live(*st, self.raw),
            r is Err ==> r->Err_0.code == FMOD_ERR_INVALID_HANDLE,
            r is Ok ==> exists|g: int|
                0 <= g < st.geometries@.len() && (#[trigger] st.geometries@[g]).raw
                    == self.raw && r->Ok_0.0 == st.geometries@[g].max_polygons && r->Ok_0.1
                    == st.geometries@[g].max_vertices,
    {
        let g = self.locate(st)?;
        Ok((st.geometries[g].max_polygons, st.geometries[g].max_vertices))
    }

    /// The number of polygons in the object.
    pub fn get_polygon_count(&self, st: &Studio) -> (r: Result<i32, FmodError>)
        requires
            st.wf(),
        ensures
            r is Ok <==> geometry_live(*st, self.raw),
            r is Err ==> r->Err_0.code == FMOD_ERR_INVALID_HANDLE,
            r is Ok ==> exists|g: int|
                0 <= g < st.geometries@.len() && (#[trigger] st.geometries@[g]).raw
                    == self.raw && r->Ok_0 == st.geometries@[g].polygons@.len(),
    {
        let g = self.locate(st)?;
        proof {
            assert(st.geometries@[g as int].wf(st.next_raw));
        }
        Ok(st.geometries[g].polygons.len() as i32)
    }

    /// Writes the native userdata slot directly.
    ///
    /// This is the raw, untyped slot. Overwriting a key placed there by the
    /// typed association API orphans the association; the typed API and the
    /// release path assume the slot is theirs once used.
    pub fn set_raw_userdata(&self, st: &mut Studio, userdata: usize) -> (r: Result<
        (),
        FmodError,
    >)
        requires
            old(st).wf(),
        ensures
            final(st).wf(),
            r is Err ==> *final(st) == *old(st) && r->Err_0.code == FMOD_ERR_INVALID_HANDLE,
            r is Ok <==> geometry_live(*old(st), self.raw),
            r is Ok ==> exists|g: int|
                0 <= g < old(st).geometries@.len() && (#[trigger] old(st).geometries@[
                    g]).raw == self.raw && final(st).geometries@ == old(st).geometries@.update(
                    g,
                    (GeometrySlot { userdata_slot: userdata, ..old(st).geometries@[g] }),
                ) && *final(st) == (Studio { geometries: final(st).geometries, ..*old(st) }),
    {
        let g = self.locate(st)?;
        let ghost pre = *st;
        let mut slot = st.geometries.remove(g);
        slot.userdata_slot = userdata;
        st.geometries.insert(g, slot);
        proof {
            assert(st.geometries@ =~= pre.geometries@.update(g as int, st.geometries@[
                g as int]));
            Geometry::lemma_wf_update(pre, *st, g as int);
        }
        Ok(())
    }

    /// Reads the native userdata slot directly; zero means empty.
    pub fn get_raw_userdata(&self, st: &Studio) -> (r: Result<usize, FmodError>)
        requires
            st.wf(),
        ensures
            r is Ok <==> geometry_live(*st, self.raw),
            r is Err ==> r->Err_0.code == FMOD_ERR_INVALID_HANDLE,
            r is Ok ==> exists|g: int|
                0 <= g < st.geometries@.len() && (#[trigger] st.geometries@[g]).raw
                    == self.raw && r->Ok_0 == st.geometries@[g].userdata_slot,
    {
        let g = self.locate(st)?;
        Ok(st.geometries[g].userdata_slot)
    }

    /// Associates caller data with this object through the side table.
    ///
    /// With an empty slot, the payload is inserted into the table and the
    /// fresh key written into the slot; with an occupied slot the existing
    /// association's payload is replaced in place. Afterwards the typed
    /// lookup yields the payload.
    pub fn set_userdata(&self, st: &mut Studio, data: u64) -> (r: Result<(), FmodError>)
        requires
            old(st).wf(),
        ensures
            final(st).wf(),
            r is Err ==> *final(st) == *old(st),
            !geometry_live(*old(st), self.raw) ==> r is Err && r->Err_0.code
                == FMOD_ERR_INVALID_HANDLE,
            r is Ok ==> exists|g: int|
                0 <= g < old(st).geometries@.len() && (#[trigger] old(st).geometries@[
                    g]).raw == self.raw && final(st).geometries@ == old(st).geometries@.update(
                    g,
                    (GeometrySlot {
                        userdata_slot: final(st).geometries@[g].userdata_slot,
                        ..old(st).geometries@[g]
                    }),
                ) && *final(st) == (Studio {
                    geometries: final(st).geometries,
                    userdata: final(st).userdata,
                    ..*old(st)
                }) && final(st).geometries@[g].userdata_slot != 0 && final(st).userdata.spec_get(final(st).geometries@[g].userdata_slot) == Some(data)
                    && (forall|k: usize|
                    k != final(st).geometries@[g].userdata_slot ==> final(st).userdata.spec_get(k) == old(st).userdata.spec_get(k)),
            old(st).live && (exists|g: int|
                0 <= g < old(st).geometries@.len() && (#[trigger] old(st).geometries@[
                    g]).raw == self.raw && (old(st).geometries@[g].userdata_slot == 0
                    ==> old(st).userdata.next_key < usize::MAX) && (old(st).geometries@[
                    g].userdata_slot != 0 ==> old(st).userdata.spec_has_key(
                    old(st).geometries@[g].userdata_slot,
                ))) ==> r is Ok,
    {
        let g = self.locate(st)?;
        proof {
            assert forall|gg: int|
                0 <= gg < st.geometries@.len() && (#[trigger] st.geometries@[gg]).raw
                == self.raw implies gg == g as int by {
                st.lemma_geometry_at(self.raw, gg);
            }
        }
        let key = st.geometries[g].userdata_slot;
        if key == 0 {
            if st.userdata.next_key == usize::MAX {
                return Err(FmodError { code: FMOD_ERR_MEMORY });
            }
            let ghost pre = *st;
            let new_key = st.userdata.insert(data, self.raw);
            proof {
                assert(st.geometries@ == pre.geometries@);
                assert forall|i: int|
                    0 <= i < st.geometries@.len() implies (#[trigger] st.geometries@[
                    i]).wf(st.next_raw) by {
                    assert(pre.geometries@[i].wf(pre.next_raw));
                }
                assert(st.wf());
            }
            let ghost mid = *st;
            let mut slot = st.geometries.remove(g);
            slot.userdata_slot = new_key;
            st.geometries.insert(g, slot);
            proof {
                assert(st.geometries@ =~= mid.geometries@.update(g as int, st.geometries@[
                    g as int]));
                Geometry::lemma_wf_update(mid, *st, g as int);
                assert(st.geometries@[g as int].raw == self.raw);
                assert(st.userdata.spec_get(new_key) == Some(data));
            }
            Ok(())
        } else {
            let ghost pre = *st;
            let was_set = st.userdata.set(key, data);
            proof {
                assert(st.geometries@ == pre.geometries@);
                assert forall|i: int|
                    0 <= i < st.geometries@.len() implies (#[trigger] st.geometries@[
                    i]).wf(st.next_raw) by {
                    assert(pre.geometries@[i].wf(pre.next_raw));
                }
                assert(st.wf());
            }
            if was_set {
                proof {
                    assert(st.geometries@ =~= old(st).geometries@.update(
                        g as int,
                        (GeometrySlot {
                            userdata_slot: st.geometries@[g as int].userdata_slot,
                            ..old(st).geometries@[g as int]
                        }),
                    ));
                }
                Ok(())
            } else {
                // The slot held a value the table does not know: the raw
                // slot was written around the typed API. Surface it as a
                // stale-handle condition rather than inventing an entry.
                Err(FmodError { code: FMOD_ERR_INVALID_HANDLE })
            }
        }
    }

    /// The caller data associated with this object, when any.
    pub fn get_userdata(&self, st: &Studio) -> (r: Result<Option<u64>, FmodError>)
        requires
            st.wf(),
        ensures
            r is Ok <==> geometry_live(*st, self.raw),
            r is Err ==> r->Err_0.code == FMOD_ERR_INVALID_HANDLE,
            r is Ok ==> exists|g: int|
                0 <= g < st.geometries@.len() && (#[trigger] st.geometries@[g]).raw
                    == self.raw && r->Ok_0 == st.userdata.spec_get(
                    st.geometries@[g].userdata_slot,
                ),
    {
        let g = self.locate(st)?;
        Ok(st.userdata.get(st.geometries[g].userdata_slot))
    }

    /// Releases the object and its memory.
    ///
    /// The userdata key is read from the slot before the native release,
    /// because the handle is useless afterwards; then the object goes away,
    /// and only then is the association removed from the table, so a failed
    /// release leaves the table untouched. Afterwards the handle is stale
    /// for good and no association under the captured key remains.
    pub fn release(&self, st: &mut Studio) -> (r: Result<(), FmodError>)
        requires
            old(st).wf(),
        ensures
            final(st).wf(),
            r is Err ==> *final(st) == *old(st) && r->Err_0.code == FMOD_ERR_INVALID_HANDLE,
            r is Ok <==> geometry_live(*old(st), self.raw),
            r is Ok ==> {
                &&& !geometry_live(*final(st), self.raw)
                &&& final(st).geometries@.len() == old(st).geometries@.len() - 1
                &&& old(st).spec_find_geometry(self.raw) is Some
                &&& final(st).geometries@ == old(st).geometries@.remove(
                    old(st).spec_find_geometry(self.raw)->0,
                )
                &&& *final(st) == (Studio {
                    geometries: final(st).geometries,
                    userdata: final(st).userdata,
                    ..*old(st)
                })
                &&& exists|g: int|
                    0 <= g < old(st).geometries@.len() && (#[trigger] old(st).geometries@[
                        g]).raw == self.raw && final(st).userdata.spec_get(
                        old(st).geometries@[g].userdata_slot,
                    ) is None && (forall|k: usize|
                        k != old(st).geometries@[g].userdata_slot ==> final(st).userdata.spec_get(k) == old(st).userdata.spec_get(k))
            },
    {
        let g = self.locate(st)?;
        // Capture the key first: the handle is dead after the native
        // release and could not be asked for it any more.
        let key = st.geometries[g].userdata_slot;
        let ghost pre = *st;
        let _slot = st.geometries.remove(g);
        proof {
            assert(st.geometries@ =~= pre.geometries@.remove(g as int));
            assert forall|i: int|
                0 <= i < st.geometries@.len() implies (#[trigger] st.geometries@[i]).wf(
                st.next_raw,
            ) by {
                let pi: int = if i < g as int {
                    i
                } else {
                    i + 1
                };
                assert(pre.geometries@[pi].wf(pre.next_raw));
            }
            assert forall|i: int, j: int|
                0 <= i < j < st.geometries@.len() implies (#[trigger] st.geometries@[
            i]).raw != (#[trigger] st.geometries@[j]).raw by {
                let pi: int = if i < g as int {
                    i
                } else {
                    i + 1
                };
                let pj: int = if j < g as int {
                    j
                } else {
                    j + 1
                };
                assert(pre.geometries@[pi].raw != pre.geometries@[pj].raw);
            }
            assert(st.wf());
        }
        let _removed = st.userdata.remove(key);
        proof {
            assert forall|i: int|
                0 <= i < st.geometries@.len() implies (#[trigger] st.geometries@[i]).raw
                != self.raw by {
                let pi: int = if i < g as int {
                    i
                } else {
                    i + 1
                };
                if pi < g as int {
                    assert(pre.geometries@[pi].raw != pre.geometries@[g as int].raw);
                } else if pi > g as int {
                    assert(pre.geometries@[g as int].raw != pre.geometries@[pi].raw);
                }
            }
            assert(st.wf());
        }
        Ok(())
    }
}

/// The serialized image of a polygon list: each polygon's vertex count in
/// order, four little-endian bytes each.
pub open spec fn poly_bytes(polys: Seq<i32>) -> Seq<u8>
    decreases polys.len(),
{
    if polys.len() == 0 {
        Seq::empty()
    } else {
        poly_bytes(polys.drop_last()) + spec_u32_to_le_bytes(polys.last() as u32)
    }
}

/// The serialized image of a geometry object: its capacity, its polygon
/// count, then its polygons. Only the engine reads this format back.
pub open spec fn geometry_blob(g: GeometrySlot) -> Seq<u8> {
    spec_u32_to_le_bytes(g.max_polygons as u32) + spec_u32_to_le_bytes(g.max_vertices as u32)
        + spec_u32_to_le_bytes(g.polygons@.len() as u32) + poly_bytes(g.polygons@)
}

/// Appends the four little-endian bytes of a word.
fn append_u32(out: &mut Vec<u8>, x: u32)
    ensures
        final(out)@ == old(out)@ + spec_u32_to_le_bytes(x),
{
    let bytes = u32_to_le_bytes(x);
    let mut i: usize = 0;
    while i < bytes.len()
        invariant
            bytes@ == spec_u32_to_le_bytes(x),
            bytes@.len() == 4,
            i <= 4,
            out@ == old(out)@ + bytes@.take(i as int),
        decreases bytes@.len() - i,
    {
        out.push(bytes[i]);
        proof {
            assert(out@ =~= old(out)@ + bytes@.take(i + 1));
        }
        i = i + 1;
    }
    proof {
        assert(out@ =~= old(out)@ + bytes@);
    }
}

/// Serializes a geometry object as the engine does.
fn encode_geometry(g: &GeometrySlot) -> (r: Vec<u8>)
    ensures
        r@ == geometry_blob(*g),
{
    let mut out: Vec<u8> = Vec::new();
    append_u32(&mut out, g.max_polygons as u32);
    append_u32(&mut out, g.max_vertices as u32);
    append_u32(&mut out, g.polygons.len() as u32);
    let ghost header = out@;
    let mut i: usize = 0;
    while i < g.polygons.len()
        invariant
            i <= g.polygons@.len(),
            header == spec_u32_to_le_bytes(g.max_polygons as u32) + spec_u32_to_le_bytes(
                g.max_vertices as u32,
            ) + spec_u32_to_le_bytes(g.polygons@.len() as u32),
            out@ == header + poly_bytes(g.polygons@.take(i as int)),
        decreases g.polygons@.len() - i,
    {
        let v = g.polygons[i];
        append_u32(&mut out, v as u32);
        proof {
            assert(g.polygons@.take(i + 1).drop_last() =~= g.polygons@.take(i as int));
            assert(g.polygons@.take(i + 1).last() == g.polygons@[i as int]);
            assert(out@ =~= header + poly_bytes(g.polygons@.take(i + 1)));
        }
        i = i + 1;
    }
    proof {
        assert(g.polygons@.take(g.polygons@.len() as int) =~= g.polygons@);
    }
    out
}

impl Geometry {
    /// One native save call, as the ABI shapes it: with no buffer the
    /// engine reports the serialized size; with enough capacity it writes
    /// the serialized block and echoes the size.
    fn save_query(g: &GeometrySlot, capacity: usize) -> (r: (i32, usize, Vec<u8>))
        ensures
            r.0 == crate::error::FMOD_OK,
            r.1 == geometry_blob(*g).len(),
            capacity >= geometry_blob(*g).len() ==> r.2@ == geometry_blob(*g),
            capacity < geometry_blob(*g).len() ==> r.2@.len() == 0,
    {
        let blob = encode_geometry(g);
        let n = blob.len();
        if capacity >= n {
            (crate::error::FMOD_OK, n, blob)
        } else {
            (crate::error::FMOD_OK, n, Vec::new())
        }
    }

    /// Saves the object as a serialized binary block, discovering the size
    /// with an empty first call and filling a buffer of exactly that size
    /// with the second; the echoed size must agree with the discovered one.
    /// The block is opaque: only the engine can read it back.
    pub fn save(&self, st: &Studio) -> (r: Result<Vec<u8>, FmodError>)
        requires
            st.wf(),
        ensures
            r is Ok <==> geometry_live(*st, self.raw),
            r is Err ==> r->Err_0.code == FMOD_ERR_INVALID_HANDLE,
            r is Ok ==> exists|g: int|
                0 <= g < st.geometries@.len() && (#[trigger] st.geometries@[g]).raw
                    == self.raw && r->Ok_0@ == geometry_blob(st.geometries@[g]),
    {
        let g = self.locate(st)?;
        let slot = &st.geometries[g];
        let (code0, needed, _ignored) = Geometry::save_query(slot, 0);
        let expected = match crate::protocol::discovery_step(code0, needed) {
            crate::protocol::Discovery::Proceed(n) => n,
            crate::protocol::Discovery::Abort(e) => {
                return Err(e);
            },
        };
        let (code1, echoed, data) = Geometry::save_query(slot, expected);
        match crate::protocol::fill_step(expected, code1, echoed, data.len()) {
            Ok(()) => {
                proof {
                    assert(st.geometries@[g as int].raw == self.raw && data@
                        == geometry_blob(st.geometries@[g as int]));
                }
                Ok(data)
            },
            Err(crate::protocol::QueryError::Native(e)) => Err(e),
            Err(crate::protocol::QueryError::Mismatch { .. }) => Err(
                FmodError { code: crate::error::FMOD_ERR_INTERNAL },
            ),
        }
    }
}

} // verus!
