//! The statistics of the knowledge base.

use dshtui::model::kb_stats::{
    kb_duration_boundaries, KbBucket, KbHistogram, KbStatsError, KbStatsSnapshot, WireKbStats,
};

fn wire() -> WireKbStats {
    WireKbStats {
        totals: KbBucket {
            hits: 10,
            misses: 2,
            empty: 1,
            errs: 0,
            skipped: 1,
            searches: 12,
            avg_ms: 345,
            hist: KbHistogram {
                boundaries: kb_duration_boundaries(),
                counts: vec![3, 2, 1, 4, 1, 1, 0],
            },
        },
        window: KbBucket {
            hits: 1,
            misses: 0,
            empty: 0,
            errs: 0,
            skipped: 0,
            searches: 1,
            avg_ms: 120,
            hist: KbHistogram {
                boundaries: kb_duration_boundaries(),
                counts: vec![0, 0, 0, 0, 1, 0, 0],
            },
        },
        last_log_at: 1788515073345,
        restored: true,
    }
}

#[test]
fn from_wire_nested_hist_and_ratio() {
    let s = KbStatsSnapshot::from_wire(&wire()).unwrap();
    assert_eq!(s.totals.hits, 10);
    assert_eq!(s.totals.avg_ms, 345);
    assert_eq!(s.hit_ratio(), 83);
    assert!(s.boundaries_match_agent_server());
    assert!(s.restored);
}

#[test]
fn histogram_mismatch_fails_fast() {
    let mut w = wire();
    w.totals.hist.counts.pop();
    let err = KbStatsSnapshot::from_wire(&w).unwrap_err();
    assert!(
        matches!(
            err,
            KbStatsError::HistogramMismatch {
                boundaries: 7,
                counts: 6
            }
        )
    );
}

#[test]
fn zero_searches_ratio_is_zero() {
    let mut w = wire();
    w.totals.hits = 0;
    w.totals.misses = 0;
    let s = KbStatsSnapshot::from_wire(&w).unwrap();
    assert_eq!(s.hit_ratio(), 0);
}

#[test]
fn boundaries_constant_matches_agent_server() {
    assert_eq!(
        kb_duration_boundaries(),
        vec![0, 100, 500, 1000, 2000, 4000, 16000],
    );
}

#[test]
fn mismatches_are_told_in_words() {
    let e = KbStatsError::HistogramMismatch { boundaries: 7, counts: 6 };
    assert!(e.message().contains('7') && e.message().contains('6'));
}

#[test]
fn either_histogram_can_be_wrong() {
    let mut w = wire();
    w.window.hist.boundaries.push(1);
    assert!(KbStatsSnapshot::from_wire(&w).is_err());
    assert!(!w.window.hist.is_valid());
    let mut w = wire();
    w.totals.hist.boundaries[0] = 1;
    let s = KbStatsSnapshot::from_wire(&w).unwrap();
    assert!(!s.boundaries_match_agent_server());
}
