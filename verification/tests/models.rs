use vauth::models::{
    all_encodings, default_model_dir, howdy_model_path, import_howdy, join_path, model_path,
    models_dir, next_id, FaceModel,
};

fn model(id: u32, label: &str, encodings: Vec<usize>) -> FaceModel {
    FaceModel {
        time: 1700000000,
        label: label.to_string(),
        id,
        data: encodings.into_iter().map(|n| vec![0.1f64.to_bits(); n]).collect(),
    }
}

#[test]
fn next_id_is_max_plus_one() {
    assert_eq!(next_id(&[]), 0);
    assert_eq!(next_id(&[model(3, "a", vec![]), model(7, "b", vec![]), model(1, "c", vec![])]), 8);
    assert_eq!(next_id(&[model(0, "a", vec![])]), 1);
}

#[test]
fn all_encodings_keeps_full_length_ones_in_order() {
    let models = vec![model(0, "a", vec![128, 5, 128]), model(1, "b", vec![]), model(2, "c", vec![129, 128])];
    let all = all_encodings(&models);
    assert_eq!(all.len(), 3);
    assert!(all.iter().all(|e| e.len() == 128));
    assert_eq!(f64::from_bits(all[0][0]), 0.1);
}

#[test]
fn import_into_empty_keeps_models() {
    let (out, n) = import_howdy(vec![model(5, "x", vec![128])], None);
    assert_eq!(n, 1);
    assert_eq!(out, vec![model(5, "x", vec![128])]);
}

#[test]
fn import_merges_renumbered_and_relabelled() {
    let existing = vec![model(0, "mine", vec![128]), model(4, "mine2", vec![])];
    let imported = vec![model(0, "first", vec![128]), model(1, "second", vec![])];
    let (out, n) = import_howdy(imported, Some(existing));
    assert_eq!(n, 2);
    assert_eq!(out.len(), 4);
    assert_eq!(out[0].label, "mine");
    assert_eq!((out[2].id, out[2].label.as_str()), (5, "howdy-import: first"));
    assert_eq!((out[3].id, out[3].label.as_str()), (6, "howdy-import: second"));
    assert_eq!(out[2].data.len(), 1);
}

#[test]
fn paths() {
    assert_eq!(default_model_dir(), "/lib/security/howdy/dlib-data");
    assert_eq!(models_dir("/home/u/.local/share/vauth"), "/home/u/.local/share/vauth/face-models");
    assert_eq!(models_dir("/data/"), "/data/face-models");
    assert_eq!(model_path("/m", "alice"), "/m/alice.json");
    assert_eq!(model_path("/m", "/etc/x"), "/etc/x.json");
    assert_eq!(join_path("", "a"), "a");
    assert_eq!(howdy_model_path("bob"), "/lib/security/howdy/models/bob.dat");
    let joined = std::path::Path::new("/m").join("alice.json");
    assert_eq!(joined.to_str().unwrap(), model_path("/m", "alice"));
}
