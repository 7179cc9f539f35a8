use oracles::bucket::{next_step, BucketCmd, BucketOp, Cmd, List, Put, Remove, RunStep};

#[test]
fn list_lists_the_bucket() {
    let cmd = Cmd { cmd: BucketCmd::Ls(List { bucket: "devnet-poc5g-rewards".to_string() }) };
    assert_eq!(cmd.ops(), vec![BucketOp::List { bucket: "devnet-poc5g-rewards".to_string() }]);
}

#[test]
fn put_stores_each_file_in_order() {
    let cmd = Cmd {
        cmd: BucketCmd::Put(Put {
            bucket: "b".to_string(),
            files: vec![b"a.gz".to_vec(), b"c.gz".to_vec()],
        }),
    };
    assert_eq!(
        cmd.ops(),
        vec![
            BucketOp::Put { bucket: "b".to_string(), file: b"a.gz".to_vec() },
            BucketOp::Put { bucket: "b".to_string(), file: b"c.gz".to_vec() },
        ]
    );
}

#[test]
fn remove_removes_each_key() {
    let cmd = BucketCmd::Rm(Remove { bucket: "b".to_string(), keys: vec!["k1".to_string()] });
    assert_eq!(cmd.ops(), vec![BucketOp::Remove { bucket: "b".to_string(), key: "k1".to_string() }]);
    let empty = BucketCmd::Rm(Remove { bucket: "b".to_string(), keys: vec![] });
    assert!(empty.ops().is_empty());
}

#[test]
fn run_stops_at_first_failure() {
    assert_eq!(next_step(3, 0, true), RunStep::Next(1));
    assert_eq!(next_step(3, 1, false), RunStep::Failed(1));
    assert_eq!(next_step(3, 2, true), RunStep::Finished);
}
