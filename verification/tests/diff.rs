use studio_core::diff::{diff_lines, split_lines, DiffLine, DiffTag};
use studio_core::diff::DiffTag::{Add, Del, Same};

fn tags(d: &[DiffLine]) -> Vec<DiffTag> {
    d.iter().map(|l| l.tag).collect()
}

#[test]
fn identical_is_all_same() {
    let d = diff_lines("a\nb\nc", "a\nb\nc");
    assert_eq!(tags(&d), [DiffTag::Same, DiffTag::Same, DiffTag::Same]);
    assert_eq!(d[1].text, "b");
}

#[test]
fn insertion_and_deletion() {
    assert_eq!(
        tags(&diff_lines("a\nb", "a\nx\nb")),
        [DiffTag::Same, DiffTag::Add, DiffTag::Same]
    );
    assert_eq!(
        tags(&diff_lines("a\nb\nc", "a\nc")),
        [DiffTag::Same, DiffTag::Del, DiffTag::Same]
    );
}

#[test]
fn replacement_shows_del_then_add() {
    let d = diff_lines("a\nb\nc", "a\ny\nc");
    assert_eq!(
        tags(&d),
        [DiffTag::Same, DiffTag::Del, DiffTag::Add, DiffTag::Same]
    );
    assert_eq!(d[1].text, "b");
    assert_eq!(d[2].text, "y");
}

#[test]
fn empty_to_content_is_all_add() {
    assert_eq!(tags(&diff_lines("", "a\nb")), [DiffTag::Add, DiffTag::Add]);
    assert_eq!(tags(&diff_lines("a\nb", "")), [DiffTag::Del, DiffTag::Del]);
}

#[test]
fn interleaved_lcs_is_exact() {
    let d = diff_lines("a\nb\nc\nd\ne", "a\nx\nc\ny\ne");
    assert_eq!(tags(&d), [Same, Del, Add, Same, Del, Add, Same]);
    let text = |t: DiffTag| -> Vec<String> {
        d.iter()
            .filter(|l| l.tag == t)
            .map(|l| l.text.clone())
            .collect()
    };
    assert_eq!(text(Same), ["a", "c", "e"]);
    assert_eq!(text(Del), ["b", "d"]);
    assert_eq!(text(Add), ["x", "y"]);
}

#[test]
fn longer_common_run_is_preferred() {
    let d = diff_lines("a\nb\nc", "a\nc\nb\nc");
    assert_eq!(tags(&d), [Same, Add, Same, Same]);
    assert_eq!(d.iter().filter(|l| l.tag == Add).count(), 1);
}

#[test]
fn same_count_equals_lcs_length_exhaustively() {
    fn lcs(a: &[u8], b: &[u8]) -> usize {
        match (a.split_first(), b.split_first()) {
            (Some((x, ar)), Some((y, br))) => {
                if x == y {
                    1 + lcs(ar, br)
                } else {
                    lcs(ar, b).max(lcs(a, br))
                }
            }
            _ => 0,
        }
    }
    let join = |s: &[u8]| -> String {
        s.iter()
            .map(|c| (*c as char).to_string())
            .collect::<Vec<_>>()
            .join("\n")
    };
    let mut corpus: Vec<Vec<u8>> = vec![vec![]];
    let mut frontier = vec![vec![]];
    for _ in 0..4 {
        let mut next = Vec::new();
        for s in &frontier {
            for &c in b"abc" {
                let mut t = s.clone();
                t.push(c);
                next.push(t);
            }
        }
        corpus.extend(next.iter().cloned());
        frontier = next;
    }
    for a in &corpus {
        for b in &corpus {
            let d = diff_lines(&join(a), &join(b));
            let same = d.iter().filter(|l| l.tag == DiffTag::Same).count();
            assert_eq!(same, lcs(a, b), "a={a:?} b={b:?}");
        }
    }
}

#[test]
fn lines_follow_str_lines() {
    for text in ["", "a", "a\n", "a\r\nb", "a\n\nb\n", "\n", "x\r", "a\r\r\nb\n\r", "é\nü"] {
        let want: Vec<String> = text.lines().map(|l| l.to_string()).collect();
        assert_eq!(split_lines(text), want, "text={text:?}");
    }
}

#[test]
fn replaying_a_diff_gives_both_texts() {
    let old = "keep\ndrop\nkeep2\r\nold-tail";
    let new = "new-head\nkeep\nkeep2\nnew-tail\n";
    let d = diff_lines(old, new);
    let old_side: Vec<&str> = d.iter().filter(|l| l.tag != DiffTag::Add).map(|l| l.text.as_str()).collect();
    let new_side: Vec<&str> = d.iter().filter(|l| l.tag != DiffTag::Del).map(|l| l.text.as_str()).collect();
    assert_eq!(old_side, old.lines().collect::<Vec<_>>());
    assert_eq!(new_side, new.lines().collect::<Vec<_>>());
}
