use wsengine::io_uring::{IoUringOp, UserDataExt};

const OPS: [IoUringOp; 8] = [
    IoUringOp::Accept,
    IoUringOp::Close,
    IoUringOp::PollAdd,
    IoUringOp::ProvideBuffers,
    IoUringOp::Recv,
    IoUringOp::RemoveBuffers,
    IoUringOp::Send,
    IoUringOp::Unknown,
];

#[test]
fn pack_lays_fields_low_to_high() {
    let t = <u64 as UserDataExt>::pack(Some(5), 0x1234, 7, IoUringOp::Recv);
    assert_eq!(t, 0x0000_0005_1234_071B);
}

#[test]
fn pack_without_fd_uses_all_ones() {
    let t = <u64 as UserDataExt>::pack(None, 0, 0, IoUringOp::Accept);
    assert_eq!(t, 0xFFFF_FFFF_0000_000D);
    assert_eq!(t.fd(), None);
}

#[test]
fn round_trip_all_fields() {
    for op in OPS {
        for fd in [None, Some(0u32), Some(3), Some(0xFFFF_FFFE)] {
            for gen in [0u16, 1, 0x8000, 0xFFFF] {
                for shard in [0u8, 1, 0x7F, 0xFF] {
                    let t = <u64 as UserDataExt>::pack(fd, gen, shard, op);
                    assert_eq!(t.fd(), fd);
                    assert_eq!(t.gen(), gen);
                    assert_eq!(t.shard(), shard);
                    assert_eq!(t.opcode(), op);
                }
            }
        }
    }
}

#[test]
fn unknown_opcode_byte_reads_as_unknown() {
    let t: u64 = 0x0000_0000_0000_0042;
    assert_eq!(t.opcode(), IoUringOp::Unknown);
    assert_eq!(IoUringOp::try_from(0x42u8), Err(()));
    assert_eq!(IoUringOp::try_from(27u8), Ok(IoUringOp::Recv));
}

#[test]
fn op_bytes() {
    assert_eq!(IoUringOp::Accept.to_byte(), 13);
    assert_eq!(IoUringOp::Close.to_byte(), 19);
    assert_eq!(IoUringOp::PollAdd.to_byte(), 6);
    assert_eq!(IoUringOp::ProvideBuffers.to_byte(), 31);
    assert_eq!(IoUringOp::Recv.to_byte(), 27);
    assert_eq!(IoUringOp::RemoveBuffers.to_byte(), 32);
    assert_eq!(IoUringOp::Send.to_byte(), 26);
    assert_eq!(IoUringOp::Unknown.to_byte(), 255);
    for op in OPS {
        assert_eq!(IoUringOp::try_from(op.to_byte()), Ok(op));
    }
}
