use candidature::generate::{chunks_note, documents_before_generation, merge_generated_outputs, Livrables};
use candidature::generate::GeneratedDocuments;
use candidature::snapshots::{
    capture, missing_version_error, next_snapshot_version, restore, restore_backup_note,
    restored_message, undo_message,
};

fn docs(r: Option<&str>, s: Option<&str>, c: Option<&str>) -> GeneratedDocuments<String, String, String> {
    GeneratedDocuments {
        restitution: r.map(|x| x.to_string()),
        resume_json: s.map(|x| x.to_string()),
        cover_letter_json: c.map(|x| x.to_string()),
    }
}

#[test]
fn versions_are_numbered_after_the_saved_ones() {
    assert_eq!(next_snapshot_version(Some(0)), 1);
    assert_eq!(next_snapshot_version(Some(4)), 5);
    assert_eq!(next_snapshot_version(None), 1);
}

#[test]
fn restoring_a_capture_gives_back_the_documents() {
    let snap = capture(docs(Some("r1"), Some("cv1"), None), 3, Some("ajout".to_string()));
    assert_eq!(snap.version, 3);
    assert_eq!(snap.trigger_message.as_deref(), Some("ajout"));
    let mut current = docs(Some("r2"), None, Some("lettre2"));
    restore(&mut current, snap);
    assert_eq!(current.restitution.as_deref(), Some("r1"));
    assert_eq!(current.resume_json.as_deref(), Some("cv1"));
    assert_eq!(current.cover_letter_json, None);
}

#[test]
fn version_messages_name_the_version() {
    assert_eq!(restore_backup_note(2), "Backup avant restauration de la version 2");
    assert_eq!(restored_message(12), "J'ai restauré la version 12.");
    assert_eq!(missing_version_error(-3), "Version -3 introuvable");
    assert_eq!(missing_version_error(i32::MIN), "Version -2147483648 introuvable");
    assert_eq!(undo_message(), "J'ai restauré la version précédente de vos documents.");
}

#[test]
fn a_generation_clears_only_the_documents_asked_for() {
    let old = docs(Some("r0"), Some("cv0"), Some("l0"));
    let livrables = Livrables { restitution: false, resume: true, cover_letter: false };
    let mut during = documents_before_generation(livrables, Some(old));
    assert_eq!(during.restitution.as_deref(), Some("r0"));
    assert_eq!(during.resume_json, None);
    assert_eq!(during.cover_letter_json.as_deref(), Some("l0"));
    merge_generated_outputs(&mut during, None, Some("cv1".to_string()), None);
    assert_eq!(during.restitution.as_deref(), Some("r0"));
    assert_eq!(during.resume_json.as_deref(), Some("cv1"));
    assert_eq!(during.cover_letter_json.as_deref(), Some("l0"));

    let fresh: GeneratedDocuments<String, String, String> = documents_before_generation(livrables, None);
    assert_eq!(fresh.restitution, None);
    assert_eq!(chunks_note(8, "candidats"), "8 chunks candidats");
    assert_eq!(chunks_note(0, "retenus"), "0 chunks retenus");
}
