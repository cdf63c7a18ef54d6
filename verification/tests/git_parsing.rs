use branchgate::git::parse_commit_lines;

#[test]
fn parse_commit_lines_reads_parent_hashes() {
    let stdout = "abc\x1fMerge PR\x1fAda\x1f1700000000\x1fparent1 parent2\n\
                  def\x1fSquash\x1fAda\x1f1700000001\x1fparent1\n";
    let commits = parse_commit_lines(stdout);
    assert_eq!(commits.len(), 2);
    assert_eq!(commits[0].parent_count, 2);
    assert_eq!(commits[1].parent_count, 1);
    assert_eq!(commits[0].subject, "Merge PR");
}
