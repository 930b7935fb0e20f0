use thugsrf::export::graph;

fn level(db: f32) -> u8 {
    if db.is_finite() {
        (-db).round().clamp(0., 130.) as u8
    } else {
        130
    }
}

#[test]
fn ascii_graph_keeps_every_bin_at_one_db_vertical_resolution() {
    let spectrum = [-100., -10., -80., -40.];
    let levels: Vec<u8> = spectrum.iter().map(|&d| level(d)).collect();
    let text = graph(&levels);
    let rows: Vec<_> = text.lines().filter(|line| line.contains('|')).collect();
    assert_eq!(rows.len(), 131);
    assert_eq!(rows[10], " -10 |.*..");
    assert_eq!(rows[100], "-100 |*...");
    assert!(rows.iter().all(|row| row.len() == 6 + spectrum.len()));
}

#[test]
fn ascii_graph_labels_and_axis() {
    let levels = vec![0u8; 300];
    let text = graph(&levels);
    let lines: Vec<_> = text.lines().collect();
    assert!(lines[0].starts_with("# Signal graph: 131 rows"));
    assert!(lines[1].starts_with("   0 |***"));
    assert!(lines[2].starts_with("  -1 |   "));
    assert_eq!(lines[132], format!("     +{}", "-".repeat(300)));
    let axis = lines[133];
    assert_eq!(&axis[0..7], "      0");
    assert_eq!(&axis[6 + 128..6 + 131], "128");
    assert_eq!(&axis[6 + 256..6 + 259], "256");
    assert_eq!(axis.len(), 306);
    assert_eq!(lines.len(), 134);
}
