use blossom::chunk::{chunk_id, split_chunks};
use blossom::ingest::{
    check_source, EmbeddingBatch, Entry, IngestError, Ingestion, BATCH_CAPACITY,
};

fn document(paragraphs: usize) -> String {
    (0..paragraphs)
        .map(|i| format!("paragraph {}", i))
        .collect::<Vec<String>>()
        .join("\n\n")
}

/// Runs an ingestion to its end. `embed` gives each chunk's vector, or
/// `None` where the embedding fails.
fn run(
    mut ingestion: Ingestion<Vec<f32>>,
    embed: &dyn Fn(usize, &str) -> Option<Vec<f32>>,
) -> Vec<EmbeddingBatch<Vec<f32>>> {
    let mut upserts = Vec::new();
    loop {
        let outcome = match ingestion.chunk() {
            Some(chunk) => embed(ingestion.position(), chunk),
            None => break,
        };
        match outcome {
            Some(vector) => {
                if let Some(batch) = ingestion.accept(vector) {
                    upserts.push(batch);
                }
            }
            None => ingestion.skip(),
        }
    }
    if let Some(batch) = ingestion.finish() {
        upserts.push(batch);
    }
    upserts
}

fn ids(upserts: &[EmbeddingBatch<Vec<f32>>]) -> Vec<Vec<String>> {
    upserts
        .iter()
        .map(|b| b.entries().iter().map(|e| e.id.clone()).collect())
        .collect()
}

#[test]
fn thirteen_paragraphs_at_capacity_five_give_batches_of_five_five_three() {
    assert_eq!(BATCH_CAPACITY, 5);
    let text = document(13);
    let upserts = run(Ingestion::begin("notes.txt", &text), &|i, _| {
        Some(vec![i as f32, 0.5])
    });
    let sizes: Vec<usize> = upserts.iter().map(|b| b.len()).collect();
    assert_eq!(sizes, vec![5, 5, 3]);
    let all: Vec<&Entry<Vec<f32>>> = upserts.iter().flat_map(|b| b.entries()).collect();
    assert_eq!(all.len(), 13);
    for (i, entry) in all.iter().enumerate() {
        assert_eq!(entry.id, format!("notes.txt-{}", i));
        assert_eq!(entry.document, format!("paragraph {}", i));
        assert_eq!(entry.vector, vec![i as f32, 0.5]);
    }
}

#[test]
fn reingesting_an_unchanged_document_gives_the_same_ids() {
    let text = document(13);
    let first = run(Ingestion::begin("notes.txt", &text), &|i, _| {
        Some(vec![i as f32])
    });
    let second = run(Ingestion::begin("notes.txt", &text), &|i, _| {
        Some(vec![-(i as f32), 1.0])
    });
    assert_eq!(ids(&first), ids(&second));
    assert_eq!(ids(&first)[2], vec!["notes.txt-10", "notes.txt-11", "notes.txt-12"]);
}

#[test]
fn full_batches_only_leave_nothing_pending() {
    let upserts = run(Ingestion::begin("a.txt", &document(10)), &|_, _| {
        Some(vec![1.0])
    });
    let sizes: Vec<usize> = upserts.iter().map(|b| b.len()).collect();
    assert_eq!(sizes, vec![5, 5]);
}

#[test]
fn a_short_document_is_flushed_at_the_end() {
    let upserts = run(Ingestion::begin("a.txt", "only one"), &|_, _| {
        Some(vec![1.0])
    });
    assert_eq!(upserts.len(), 1);
    assert_eq!(upserts[0].len(), 1);
    assert_eq!(upserts[0].entries()[0].id, "a.txt-0");
    assert_eq!(upserts[0].entries()[0].document, "only one");
}

#[test]
fn a_failed_chunk_is_skipped_and_its_siblings_are_kept() {
    let text = document(7);
    let upserts = run(Ingestion::begin("a.txt", &text), &|i, _| {
        if i == 1 || i == 6 {
            None
        } else {
            Some(vec![i as f32])
        }
    });
    assert_eq!(
        ids(&upserts),
        vec![vec!["a.txt-0", "a.txt-2", "a.txt-3", "a.txt-4", "a.txt-5"]]
    );
    let none = run(Ingestion::begin("a.txt", &text), &|_, _| None);
    assert!(none.is_empty());
}

#[test]
fn capacity_is_respected_and_zero_is_refused() {
    assert!(Ingestion::<Vec<f32>>::with_capacity("a.txt", "x", 0).is_none());
    let upserts = run(
        Ingestion::with_capacity("a.txt", &document(5), 2).unwrap(),
        &|_, _| Some(vec![]),
    );
    let sizes: Vec<usize> = upserts.iter().map(|b| b.len()).collect();
    assert_eq!(sizes, vec![2, 2, 1]);
    let upserts = run(
        Ingestion::with_capacity("a.txt", &document(3), 1).unwrap(),
        &|_, _| Some(vec![]),
    );
    assert_eq!(upserts.len(), 3);
}

#[test]
fn accept_without_an_awaited_chunk_changes_nothing() {
    let mut ingestion: Ingestion<Vec<f32>> = Ingestion::begin("a.txt", "one");
    assert_eq!(ingestion.chunk(), Some("one"));
    assert_eq!(ingestion.position(), 0);
    assert!(ingestion.accept(vec![1.0]).is_none());
    assert_eq!(ingestion.chunk(), None);
    assert_eq!(ingestion.position(), 1);
    assert!(ingestion.accept(vec![2.0]).is_none());
    ingestion.skip();
    assert_eq!(ingestion.position(), 1);
    let last = ingestion.finish().unwrap();
    assert_eq!(last.len(), 1);
    assert_eq!(last.entries()[0].vector, vec![1.0]);
}

#[test]
fn batch_comes_apart_in_step() {
    let upserts = run(
        Ingestion::with_capacity("d/n.txt", "a\n\nb\n\nc", 3).unwrap(),
        &|i, _| Some(vec![i as f32]),
    );
    assert_eq!(upserts.len(), 1);
    let (ids, documents, vectors) = upserts.into_iter().next().unwrap().into_parts();
    assert_eq!(ids, vec!["d/n.txt-0", "d/n.txt-1", "d/n.txt-2"]);
    assert_eq!(documents, vec!["a", "b", "c"]);
    assert_eq!(vectors, vec![vec![0.0], vec![1.0], vec![2.0]]);
}

#[test]
fn split_chunks_agrees_with_std_split() {
    for text in [
        "",
        "one",
        "a\n\nb",
        "a\n\n\nb",
        "a\n\n\n\nb",
        "\n\na",
        "a\n\n",
        "\n\n",
        "\n",
        "a\nb\n\nc\r\n\r\nd",
        "ünï\n\ncödé",
    ] {
        let expected: Vec<String> = text.split("\n\n").map(|c| c.to_string()).collect();
        assert_eq!(split_chunks(text), expected, "{:?}", text);
    }
}

#[test]
fn chunk_ids_are_path_hyphen_index() {
    assert_eq!(chunk_id("notes.txt", 0), "notes.txt-0");
    assert_eq!(chunk_id("notes.txt", 9), "notes.txt-9");
    assert_eq!(chunk_id("notes.txt", 10), "notes.txt-10");
    assert_eq!(chunk_id("dir/näme.txt", 1234567890), "dir/näme.txt-1234567890");
    assert_eq!(chunk_id("", usize::MAX), format!("-{}", usize::MAX));
}

#[test]
fn only_plain_text_files_are_ingested() {
    assert_eq!(check_source(false, Some("txt")), Ok(()));
    assert_eq!(check_source(true, Some("txt")), Err(IngestError::Directory));
    assert_eq!(check_source(true, None), Err(IngestError::Directory));
    assert_eq!(check_source(false, None), Err(IngestError::NotPlainText));
    assert_eq!(check_source(false, Some("md")), Err(IngestError::NotPlainText));
    assert_eq!(check_source(false, Some("TXT")), Err(IngestError::NotPlainText));
    assert_eq!(check_source(false, Some("")), Err(IngestError::NotPlainText));
}
