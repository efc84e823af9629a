use infini_attention::config::EngineConfig;
use infini_attention::conversion::{conversion_kind, ConversionKind};
use infini_attention::errors::EngineError;
use infini_attention::orchestrator::SegmentOrchestrator;
use infini_attention::stages::{concat_heads, gather_rows, split_qkv};
use infini_attention::tokenizer::tokenize;

#[test]
fn config_accepts_defaults() {
    let c = EngineConfig::new(16, 12, 10000, 1).unwrap();
    assert_eq!(c.segment_size, 16);
    assert_eq!(c.d_model, 12);
    assert_eq!(c.vocab_size, 10000);
    assert_eq!(c.num_heads, 1);
    assert_eq!(c.d_key(), 4);
    assert_eq!(c.d_value(), 4);
}

#[test]
fn config_rejects_indivisible_dim() {
    let r = EngineConfig::new(16, 13, 10, 1);
    assert_eq!(r, Err(EngineError::InvalidConfiguration));
}

#[test]
fn config_rejects_zero_sizes() {
    assert_eq!(EngineConfig::new(0, 12, 10, 1), Err(EngineError::InvalidConfiguration));
    assert_eq!(EngineConfig::new(16, 0, 10, 1), Err(EngineError::InvalidConfiguration));
    assert_eq!(EngineConfig::new(16, 12, 0, 1), Err(EngineError::InvalidConfiguration));
    assert_eq!(EngineConfig::new(16, 12, 10, 0), Err(EngineError::InvalidConfiguration));
}

#[test]
fn tokenize_splits_on_whitespace() {
    assert_eq!(tokenize("hello world").len(), 2);
    assert_eq!(tokenize("one two three four").len(), 4);
    assert_eq!(tokenize("").len(), 0);
    assert_eq!(tokenize(" \t \n ").len(), 0);
}

#[test]
fn tokenize_same_token_same_id() {
    let ids = tokenize("abc abc abd");
    assert_eq!(ids.len(), 3);
    assert_eq!(ids[0], ids[1]);
    assert_ne!(ids[0], ids[2]);
}

#[test]
fn tokenize_ignores_extra_whitespace() {
    assert_eq!(tokenize("  a \t b\n"), tokenize("a b"));
}

#[test]
fn tokenize_splits_on_unicode_whitespace() {
    // U+00A0 (no-break space) has the Unicode white-space property.
    assert_eq!(tokenize("a\u{00A0}b").len(), 2);
    assert_eq!(tokenize("a\u{00A0}b"), tokenize("a b"));
}

#[test]
fn tokenize_is_deterministic_within_a_run() {
    assert_eq!(tokenize("alpha beta gamma"), tokenize("alpha beta gamma"));
}

#[test]
fn conversion_kind_by_extension() {
    assert_eq!(conversion_kind(&String::from("txt")), ConversionKind::PlainText);
    assert_eq!(conversion_kind(&String::from("pdf")), ConversionKind::PdfExtract);
    assert_eq!(conversion_kind(&String::from("docx")), ConversionKind::DocxConvert);
    assert_eq!(conversion_kind(&String::from("md")), ConversionKind::RawFallback);
    assert_eq!(conversion_kind(&String::from("")), ConversionKind::RawFallback);
}

#[test]
fn orchestrator_emits_full_segments_then_flushes() {
    // Stream [1,2,3,4,5] at segment size 4: one full segment, then a
    // remainder of one token.
    let mut orch = SegmentOrchestrator::new(4);
    assert_eq!(orch.push_token(1), None);
    assert_eq!(orch.push_token(2), None);
    assert_eq!(orch.push_token(3), None);
    assert_eq!(orch.push_token(4), Some(vec![1, 2, 3, 4]));
    assert_eq!(orch.push_token(5), None);
    let rem = orch.end_of_stream();
    assert_eq!(rem, Some(vec![5]));
    orch.flush_complete();
    assert_eq!(orch.final_count(), Some(5));
}

#[test]
fn orchestrator_empty_stream_has_no_result() {
    let mut orch = SegmentOrchestrator::new(16);
    assert_eq!(orch.end_of_stream(), None);
    assert_eq!(orch.final_count(), None);
}

#[test]
fn orchestrator_short_final_segment() {
    // 7 tokens at segment size 3: two full segments, then one short
    // segment of a single token.
    let mut orch = SegmentOrchestrator::new(3);
    let mut segments: Vec<Vec<usize>> = Vec::new();
    for t in 10..17usize {
        if let Some(seg) = orch.push_token(t) {
            segments.push(seg);
        }
    }
    assert_eq!(segments, vec![vec![10, 11, 12], vec![13, 14, 15]]);
    let rem = orch.end_of_stream().unwrap();
    assert_eq!(rem, vec![16]);
    assert!(rem.len() < 3);
    orch.flush_complete();
    assert_eq!(orch.final_count(), Some(7));
}

#[test]
fn orchestrator_exact_multiple_leaves_no_remainder() {
    let mut orch = SegmentOrchestrator::new(2);
    let mut emitted = 0usize;
    for t in 0..4usize {
        if orch.push_token(t).is_some() {
            emitted += 1;
        }
    }
    assert_eq!(emitted, 2);
    assert_eq!(orch.end_of_stream(), None);
    assert_eq!(orch.final_count(), Some(4));
}

#[test]
fn split_qkv_partitions_rows() {
    // Two rows of width 6: each row splits into three chunks of width 2.
    let x: Vec<u32> = (0..12).collect();
    let (q, k, v) = split_qkv(&x, 2, 6).unwrap();
    assert_eq!(q, vec![0, 1, 6, 7]);
    assert_eq!(k, vec![2, 3, 8, 9]);
    assert_eq!(v, vec![4, 5, 10, 11]);
}

#[test]
fn split_qkv_rejects_indivisible_dim() {
    let x: Vec<u32> = (0..8).collect();
    let r = split_qkv(&x, 2, 4);
    assert_eq!(r, Err(EngineError::InvalidConfiguration));
}

#[test]
fn split_qkv_accepts_short_segment() {
    // A final segment of a single token still splits cleanly.
    let x: Vec<f32> = vec![1.0, 2.0, 3.0];
    let (q, k, v) = split_qkv(&x, 1, 3).unwrap();
    assert_eq!(q, vec![1.0]);
    assert_eq!(k, vec![2.0]);
    assert_eq!(v, vec![3.0]);
}

#[test]
fn gather_rows_reduces_ids_modulo_rows() {
    // Table of 3 rows, width 2; ids wrap modulo 3.
    let table: Vec<u32> = vec![10, 11, 20, 21, 30, 31];
    let ids: Vec<usize> = vec![0, 4, 2];
    let r = gather_rows(&table, 3, 2, &ids);
    assert_eq!(r, vec![10, 11, 20, 21, 30, 31]);
}

#[test]
fn gather_rows_embeds_segment() {
    let table: Vec<f32> = vec![0.5, -0.5, 1.5, -1.5];
    let ids: Vec<usize> = vec![1, 1, 0];
    let r = gather_rows(&table, 2, 2, &ids);
    assert_eq!(r, vec![1.5, -1.5, 1.5, -1.5, 0.5, -0.5]);
}

#[test]
fn concat_heads_rebuilds_model_dim() {
    // Two heads, two tokens, dk = 2: row i of the output is head 0's row
    // followed by head 1's row.
    let h0: Vec<u32> = vec![1, 2, 3, 4];
    let h1: Vec<u32> = vec![5, 6, 7, 8];
    let r = concat_heads(&vec![h0, h1], 2, 2);
    assert_eq!(r, vec![1, 2, 5, 6, 3, 4, 7, 8]);
}

#[test]
fn split_then_concat_reconstructs_segment() {
    // Concatenating Q, K, V as three heads yields back the embedded
    // segment the projection partitioned.
    let x: Vec<u32> = (100..118).collect();
    let (q, k, v) = split_qkv(&x, 3, 6).unwrap();
    let rebuilt = concat_heads(&vec![q, k, v], 3, 2);
    assert_eq!(rebuilt, x);
}

#[test]
fn concat_single_head_is_identity() {
    let h0: Vec<f32> = vec![1.0, 2.0, 3.0];
    let r = concat_heads(&vec![h0.clone()], 1, 3);
    assert_eq!(r, h0);
}

#[test]
fn errors_describe_themselves() {
    assert_eq!(EngineError::DeviceUnavailable.describe(), "no compatible compute device found");
    assert_eq!(EngineError::InvalidConfiguration.describe(), "invalid configuration");
    assert_eq!(EngineError::ExternalConversionFailure.describe(), "document conversion failed");
    assert_eq!(EngineError::TransferFailure.describe(), "device transfer failed");
    assert_eq!(EngineError::NumericDegeneracy.describe(), "memory normalizer degenerated");
}
