//! Enrolled face models (howdy-compatible) and where they are kept.
//!
//! A model's 128-dimensional encodings are `f64` values; the library holds
//! each one as its IEEE-754 bit pattern (`f64::to_bits`), which converts
//! back without loss (`f64::from_bits`).

use vstd::prelude::*;
use vstd::string::StringExecFns;

verus! {

/// Number of components of a face encoding.
pub const ENCODING_LEN: usize = 128;

/// A single enrolled face model.
#[derive(Debug, PartialEq)]
pub struct FaceModel {
    pub time: i64,
    pub label: String,
    pub id: u32,
    /// Each entry is a face encoding, as `f64` bit patterns.
    pub data: Vec<Vec<u64>>,
}

/// Abstract value of a face model.
pub struct FaceModelView {
    pub time: i64,
    pub label: Seq<char>,
    pub id: u32,
    pub data: Seq<Seq<u64>>,
}

impl View for FaceModel {
    type V = FaceModelView;

    open spec fn view(&self) -> FaceModelView {
        FaceModelView {
            time: self.time,
            label: self.label@,
            id: self.id,
            data: Seq::new(self.data@.len(), |i: int| self.data@[i]@),
        }
    }
}

/// The abstract values of a list of models.
pub open spec fn models_view(models: Seq<FaceModel>) -> Seq<FaceModelView> {
    Seq::new(models.len(), |i: int| models[i]@)
}

/// The largest model ID (0 for no models).
pub open spec fn max_id(models: Seq<FaceModelView>) -> nat
    decreases models.len(),
{
    if models.len() == 0 {
        0
    } else {
        let rest = max_id(models.drop_last());
        if models.last().id > rest { models.last().id as nat } else { rest }
    }
}

/// The next free model ID: one more than the largest, or 0 without models.
pub open spec fn next_model_id(models: Seq<FaceModelView>) -> nat {
    if models.len() == 0 {
        0
    } else {
        max_id(models) + 1
    }
}

proof fn lemma_max_id_bounds(models: Seq<FaceModelView>)
    ensures
        forall|i: int| 0 <= i < models.len() ==> #[trigger] models[i].id <= max_id(models),
        models.len() > 0 ==> exists|i: int| 0 <= i < models.len() && models[i].id == max_id(models),
    decreases models.len(),
{
    if models.len() > 0 {
        let p = models.drop_last();
        lemma_max_id_bounds(p);
        assert forall|i: int| 0 <= i < models.len() implies #[trigger] models[i].id <= max_id(models) by {
            if i < models.len() - 1 {
                assert(models[i] == p[i]);
            }
        }
        if p.len() > 0 && models.last().id <= max_id(p) {
            let i = choose|i: int| 0 <= i < p.len() && p[i].id == max_id(p);
            assert(models[i] == p[i]);
        } else {
            assert(models[models.len() - 1] == models.last());
        }
    }
}

/// The next available model ID: one more than the largest ID in `models`,
/// or 0 when there are none.
pub fn next_id(models: &[FaceModel]) -> (r: u32)
    requires
        forall|i: int| 0 <= i < models@.len() ==> #[trigger] models@[i].id < u32::MAX,
    ensures
        r == next_model_id(models_view(models@)),
        models@.len() == 0 ==> r == 0,
        forall|i: int| 0 <= i < models@.len() ==> #[trigger] models@[i].id < r,
        models@.len() > 0 ==> exists|i: int| 0 <= i < models@.len() && r == models@[i].id + 1,
{
    let ghost v = models_view(models@);
    proof {
        lemma_max_id_bounds(v);
        assert forall|i: int| 0 <= i < models@.len() implies #[trigger] v[i].id == models@[i].id by {}
    }
    let mut best: u32 = 0;
    let mut i: usize = 0;
    while i < models.len()
        invariant
            i <= models@.len(),
            v == models_view(models@),
            forall|k: int| 0 <= k < models@.len() ==> #[trigger] models@[k].id < u32::MAX,
            i > 0 ==> best == max_id(v.take(i as int)),
        decreases models@.len() - i,
    {
        let id = models[i].id;
        proof {
            assert(v.take(i + 1).drop_last() =~= v.take(i as int));
            assert(v.take(i + 1).last() == v[i as int]);
            assert(v[i as int] == models@[i as int]@);
            assert(v[i as int].id == id);
            if i == 0 {
                assert(v.take(0) =~= Seq::<FaceModelView>::empty());
                assert(max_id(v.take(0)) == 0);
            }
        }
        if i == 0 || id > best {
            best = id;
        }
        i = i + 1;
    }
    proof {
        assert(v.take(models@.len() as int) =~= v);
    }
    if models.len() == 0 {
        0
    } else {
        proof {
            lemma_max_id_bounds(v);
            let k = choose|k: int| 0 <= k < v.len() && v[k].id == max_id(v);
            assert(models@[k].id < u32::MAX);
            assert(v[k] == models@[k]@);
            assert forall|i: int| 0 <= i < models@.len() implies #[trigger] models@[i].id < best + 1 by {
                assert(v[i] == models@[i]@);
                assert(v[i].id <= max_id(v));
            }
        }
        best + 1
    }
}

/// The full-length encodings of a model, in order.
pub open spec fn full_encodings(data: Seq<Seq<u64>>) -> Seq<Seq<u64>>
    decreases data.len(),
{
    if data.len() == 0 {
        Seq::empty()
    } else {
        let rest = full_encodings(data.drop_last());
        if data.last().len() == ENCODING_LEN { rest.push(data.last()) } else { rest }
    }
}

/// The full-length encodings of all models, model by model.
pub open spec fn all_full_encodings(models: Seq<FaceModelView>) -> Seq<Seq<u64>>
    decreases models.len(),
{
    if models.len() == 0 {
        Seq::empty()
    } else {
        all_full_encodings(models.drop_last()) + full_encodings(models.last().data)
    }
}

/// Collects all 128-component encodings of all models into one flat list,
/// in order; encodings of another length are left out.
pub fn all_encodings<'a>(models: &'a [FaceModel]) -> (r: Vec<&'a [u64]>)
    ensures
        Seq::new(r@.len(), |i: int| r@[i]@) == all_full_encodings(models_view(models@)),
{
    let ghost v = models_view(models@);
    let mut out: Vec<&'a [u64]> = Vec::new();
    let mut i: usize = 0;
    while i < models.len()
        invariant
            i <= models@.len(),
            v == models_view(models@),
            Seq::new(out@.len(), |k: int| out@[k]@) == all_full_encodings(v.take(i as int)),
        decreases models@.len() - i,
    {
        let data = &models[i].data;
        let ghost dv = v[i as int].data;
        let ghost before = Seq::new(out@.len(), |k: int| out@[k]@);
        let mut j: usize = 0;
        while j < data.len()
            invariant
                j <= data@.len(),
                dv == Seq::new(data@.len(), |k: int| data@[k]@),
                Seq::new(out@.len(), |k: int| out@[k]@) == before + full_encodings(dv.take(j as int)),
            decreases data@.len() - j,
        {
            let ghost prev = Seq::new(out@.len(), |k: int| out@[k]@);
            let enc = data[j].as_slice();
            if enc.len() == ENCODING_LEN {
                out.push(enc);
            }
            proof {
                assert(dv.take(j + 1).drop_last() =~= dv.take(j as int));
                assert(dv.take(j + 1).last() == dv[j as int]);
                assert(dv[j as int] == enc@);
                let now = Seq::new(out@.len(), |k: int| out@[k]@);
                if enc@.len() == ENCODING_LEN {
                    assert(now =~= prev.push(enc@));
                } else {
                    assert(now =~= prev);
                }
            }
            j = j + 1;
            assert(Seq::new(out@.len(), |k: int| out@[k]@) =~= before + full_encodings(dv.take(j as int)));
        }
        proof {
            assert(dv.take(data@.len() as int) =~= dv);
            assert(v.take(i + 1).drop_last() =~= v.take(i as int));
            assert(v.take(i + 1).last() == v[i as int]);
        }
        i = i + 1;
    }
    proof {
        assert(v.take(models@.len() as int) =~= v);
    }
    out
}

/// Prefix given to the labels of imported howdy models.
pub open spec fn import_label_prefix() -> Seq<char> {
    seq!['h', 'o', 'w', 'd', 'y', '-', 'i', 'm', 'p', 'o', 'r', 't', ':', ' ']
}

/// Imported model `m` as merged behind existing ones: renumbered to `id`,
/// its label prefixed with "howdy-import: ".
pub open spec fn imported_as(m: FaceModelView, id: int) -> FaceModelView {
    FaceModelView { id: id as u32, label: import_label_prefix() + m.label, ..m }
}

/// The models to store when importing `imported` into a user's model file:
/// without an existing file, the imported models as they are; otherwise the
/// existing ones followed by the imported ones, renumbered from the next
/// free ID and relabelled.
pub open spec fn import_result(imported: Seq<FaceModelView>, existing: Option<Seq<FaceModelView>>) -> Seq<FaceModelView> {
    match existing {
        None => imported,
        Some(old) => old + Seq::new(
            imported.len(),
            |i: int| imported_as(imported[i], next_model_id(old) + i),
        ),
    }
}

/// Imports howdy models into a user's model set: `imported` are the howdy
/// models, `existing` the models already stored for the user (if the file
/// exists). Returns the models to store and the number imported.
pub fn import_howdy(imported: Vec<FaceModel>, existing: Option<Vec<FaceModel>>) -> (r: (Vec<FaceModel>, usize))
    requires
        existing matches Some(old) ==> {
            &&& forall|i: int| 0 <= i < old@.len() ==> #[trigger] old@[i].id < u32::MAX
            &&& next_model_id(models_view(old@)) + imported@.len() <= u32::MAX + 1
        },
    ensures
        r.1 == imported@.len(),
        existing is None ==> models_view(r.0@) == models_view(imported@),
        existing matches Some(old) ==> {
            &&& r.0@.len() == old@.len() + imported@.len()
            &&& forall|i: int| 0 <= i < old@.len() ==> #[trigger] r.0@[i]@ == old@[i]@
            &&& forall|i: int| 0 <= i < imported@.len() ==> {
                let m = #[trigger] r.0@[old@.len() + i]@;
                &&& m.time == imported@[i]@.time
                &&& m.data == imported@[i]@.data
                &&& m.id == next_model_id(models_view(old@)) + i
                &&& m.label == import_label_prefix() + imported@[i]@.label
            }
        },
        models_view(r.0@) == import_result(
            models_view(imported@),
            match existing {
                Some(old) => Some(models_view(old@)),
                None => None,
            },
        ),
{
    let count = imported.len();
    match existing {
        None => (imported, count),
        Some(old) => {
            let base = next_id(old.as_slice());
            let ghost iv = models_view(imported@);
            let ghost ov = models_view(old@);
            let mut merged = old;
            let mut it = imported;
            // Move the imported models out in order, relabelling each.
            proof {
                assert(merged@ == old@);
                assert(it@.skip(0) =~= it@);
            }
            let ghost all = it@;
            let mut k: usize = 0;
            while k < count
                invariant
                    k <= count,
                    count == iv.len(),
                    all.len() == count,
                    iv == models_view(all),
                    base == next_model_id(ov),
                    base + count <= u32::MAX + 1,
                    it@ == all.skip(k as int),
                    models_view(merged@) == ov + Seq::new(
                        k as nat,
                        |i: int| imported_as(iv[i], next_model_id(ov) + i),
                    ),
                decreases count - k,
            {
                let ghost before = merged@;
                let m = it.remove(0);
                proof {
                    assert(m == all[k as int]);
                    assert(m@ == iv[k as int]);
                    assert(it@ =~= all.skip(k + 1));
                }
                let mut label = String::from_str("howdy-import: ");
                proof {
                    reveal_strlit("howdy-import: ");
                    assert(label@ =~= import_label_prefix());
                }
                label.append(m.label.as_str());
                let id: u32 = base + k as u32;
                merged.push(FaceModel { time: m.time, label, id, data: m.data });
                proof {
                    let target = ov + Seq::new(
                        (k + 1) as nat,
                        |i: int| imported_as(iv[i], next_model_id(ov) + i),
                    );
                    let prev = ov + Seq::new(
                        k as nat,
                        |i: int| imported_as(iv[i], next_model_id(ov) + i),
                    );
                    assert(models_view(before) == prev);
                    assert(merged@.len() == before.len() + 1);
                    assert(target.len() == prev.len() + 1);
                    assert(models_view(merged@) =~= target) by {
                        assert forall|j: int| 0 <= j < merged@.len() implies #[trigger] models_view(
                            merged@,
                        )[j] == target[j] by {
                            if j < before.len() {
                                assert(merged@[j] == before[j]);
                                assert(models_view(before)[j] == models_view(merged@)[j]);
                                assert(prev[j] == target[j]);
                            } else {
                                assert(merged@[j].label@ == import_label_prefix() + m.label@);
                                assert(merged@[j].data@ == m.data@);
                                assert(models_view(merged@)[j] =~= imported_as(
                                    iv[k as int],
                                    next_model_id(ov) + k,
                                ));
                            }
                        }
                    }
                }
                k = k + 1;
            }
            proof {
                assert(Seq::new(
                    k as nat,
                    |i: int| imported_as(iv[i], next_model_id(ov) + i),
                ) =~= Seq::new(iv.len(), |i: int| imported_as(iv[i], next_model_id(ov) + i)));
                lemma_import_keeps_time_and_data(iv, ov);
                let mv = models_view(merged@);
                assert(mv == import_result(iv, Some(ov)));
                assert forall|i: int| 0 <= i < ov.len() implies #[trigger] merged@[i]@ == old@[i]@ by {
                    assert(mv[i] == merged@[i]@);
                    assert(ov[i] == old@[i]@);
                }
                assert forall|i: int| 0 <= i < iv.len() implies {
                    let m = #[trigger] merged@[ov.len() + i]@;
                    &&& m.time == all[i]@.time
                    &&& m.data == all[i]@.data
                    &&& m.id == next_model_id(ov) + i
                    &&& m.label == import_label_prefix() + all[i]@.label
                } by {
                    assert(mv[ov.len() + i] == merged@[ov.len() + i]@);
                    assert(iv[i] == all[i]@);
                }
            }
            (merged, count)
        },
    }
}


/// Law: importing into an existing model set keeps every imported model's
/// enrollment time and encodings; only its ID (the next free ID plus its
/// position) and its label (prefixed with "howdy-import: ") change.
pub proof fn lemma_import_keeps_time_and_data(imported: Seq<FaceModelView>, old: Seq<FaceModelView>)
    requires
        next_model_id(old) + imported.len() <= u32::MAX + 1,
    ensures
        ({
            let merged = import_result(imported, Some(old));
            &&& merged.len() == old.len() + imported.len()
            &&& forall|i: int| 0 <= i < old.len() ==> #[trigger] merged[i] == old[i]
            &&& forall|i: int| 0 <= i < imported.len() ==> {
                let m = #[trigger] merged[old.len() + i];
                &&& m.time == imported[i].time
                &&& m.data == imported[i].data
                &&& m.id == next_model_id(old) + i
                &&& m.label == import_label_prefix() + imported[i].label
            }
        }),
{
    let merged = import_result(imported, Some(old));
    assert forall|i: int| 0 <= i < imported.len() implies {
        let m = #[trigger] merged[old.len() + i];
        &&& m.time == imported[i].time
        &&& m.data == imported[i].data
        &&& m.id == next_model_id(old) + i
        &&& m.label == import_label_prefix() + imported[i].label
    } by {
        assert(merged[old.len() + i] == imported_as(imported[i], next_model_id(old) + i));
    }
}

/// Law: the next model ID is larger than every ID in use.
pub proof fn lemma_next_id_is_fresh(models: Seq<FaceModelView>)
    ensures
        forall|i: int| 0 <= i < models.len() ==> #[trigger] models[i].id < next_model_id(models),
{
    lemma_max_id_bounds(models);
}

/// Law: importing into an existing model set keeps the existing models first
/// and unchanged, and gives the imported models IDs that no existing model
/// has and that differ from one another.
pub proof fn lemma_import_keeps_ids_distinct(imported: Seq<FaceModelView>, old: Seq<FaceModelView>)
    requires
        next_model_id(old) + imported.len() <= u32::MAX + 1,
    ensures
        ({
            let merged = import_result(imported, Some(old));
            &&& merged.len() == old.len() + imported.len()
            &&& merged.take(old.len() as int) == old
            &&& forall|i: int, j: int|
                old.len() <= i < j < merged.len() ==> #[trigger] merged[i].id != #[trigger] merged[j].id
            &&& forall|k: int, i: int|
                0 <= k < old.len() <= i < merged.len() ==> #[trigger] merged[k].id != #[trigger] merged[i].id
        }),
{
    lemma_next_id_is_fresh(old);
    let merged = import_result(imported, Some(old));
    assert(merged.take(old.len() as int) =~= old);
    assert forall|k: int, i: int|
        0 <= k < old.len() <= i < merged.len() implies #[trigger] merged[k].id != #[trigger] merged[i].id by {
        assert(merged[k] == old[k]);
        assert(old[k].id < next_model_id(old));
        assert(merged[i].id == (next_model_id(old) + (i - old.len())) as u32);
    }
}

/// Directory of the dlib model files (howdy's location).
pub fn default_model_dir() -> (r: &'static str)
    ensures
        r@ == "/lib/security/howdy/dlib-data"@,
{
    "/lib/security/howdy/dlib-data"
}

/// `base` with `component` appended as `PathBuf::push` does on Unix: an
/// absolute component replaces the path, otherwise a separator is put in
/// between unless `base` is empty or already ends with one.
pub open spec fn path_join(base: Seq<char>, component: Seq<char>) -> Seq<char> {
    if component.len() > 0 && component[0] == '/' {
        component
    } else if base.len() > 0 && base.last() != '/' {
        base + seq!['/'] + component
    } else {
        base + component
    }
}

/// Appends `component` to the path `base`, as `PathBuf::push` does on Unix.
pub fn join_path(base: &str, component: &str) -> (r: String)
    ensures
        r@ == path_join(base@, component@),
{
    let clen = component.unicode_len();
    if clen > 0 && component.get_char(0) == '/' {
        return String::from_str(component);
    }
    let blen = base.unicode_len();
    let mut r = String::from_str(base);
    if blen > 0 && base.get_char(blen - 1) != '/' {
        r.append("/");
        proof {
            reveal_strlit("/");
        }
    }
    r.append(component);
    r
}

/// The directory of the face models under the data directory `data_dir`.
pub fn models_dir(data_dir: &str) -> (r: String)
    ensures
        r@ == path_join(data_dir@, "face-models"@),
{
    join_path(data_dir, "face-models")
}

/// The model file of `username` in the model directory `models_dir`:
/// "<username>.json" joined to it.
pub fn model_path(models_dir: &str, username: &str) -> (r: String)
    ensures
        r@ == path_join(models_dir@, username@ + ".json"@),
{
    let mut file = String::from_str(username);
    file.append(".json");
    join_path(models_dir, file.as_str())
}

/// The howdy model file of `username`:
/// "/lib/security/howdy/models/<username>.dat".
pub fn howdy_model_path(username: &str) -> (r: String)
    ensures
        r@ == "/lib/security/howdy/models/"@ + username@ + ".dat"@,
{
    let mut p = String::from_str("/lib/security/howdy/models/");
    p.append(username);
    p.append(".dat");
    p
}

} // verus!
