use pmemfile::libpmem::pmem_file_close;
use pmemfile::libpmem::pmem_file_create;
use pmemfile::libpmem::pmem_file_open;
use pmemfile::libpmem::pmem_file_read;
use pmemfile::libpmem::pmem_file_write;
use pmemfile::platform::PmemDevice;
use pmemfile::platform::PmemError;
use pmemfile::platform::PmemStep;

#[test]
fn round_trip_full_mapping() {
    let mut dev = PmemDevice::new(true);
    let mut h = pmem_file_create(&mut dev, "file_a", 16).unwrap();
    let data: Vec<u8> = (1u8..=16u8).collect();
    pmem_file_write(&mut dev, &mut h, 0, &data, 16).unwrap();
    let mut buf = vec![0u8; 16];
    pmem_file_read(&mut dev, &h, 0, &mut buf, 16).unwrap();
    assert_eq!(buf, data);
}

#[test]
fn round_trip_at_offset() {
    let mut dev = PmemDevice::new(true);
    let mut h = pmem_file_create(&mut dev, "file_b", 64).unwrap();
    let data = [9u8, 8, 7, 6, 5];
    pmem_file_write(&mut dev, &mut h, 20, &data, 5).unwrap();
    let mut buf = vec![0u8; 5];
    pmem_file_read(&mut dev, &h, 20, &mut buf, 5).unwrap();
    assert_eq!(buf, data.to_vec());
}

#[test]
fn offset_independence() {
    let mut dev = PmemDevice::new(true);
    let mut h = pmem_file_create(&mut dev, "file_c", 32).unwrap();
    let a = b"alpha";
    let b = b"braver";
    pmem_file_write(&mut dev, &mut h, 0, a, a.len()).unwrap();
    pmem_file_write(&mut dev, &mut h, a.len(), b, b.len()).unwrap();
    let mut got_a = vec![0u8; a.len()];
    pmem_file_read(&mut dev, &h, 0, &mut got_a, a.len()).unwrap();
    let mut got_b = vec![0u8; b.len()];
    pmem_file_read(&mut dev, &h, a.len(), &mut got_b, b.len()).unwrap();
    assert_eq!(got_a, a.to_vec());
    assert_eq!(got_b, b.to_vec());
}

#[test]
fn hello_world_scenario() {
    let mut dev = PmemDevice::new(true);
    let mut h = pmem_file_create(&mut dev, "testfile", 4096).unwrap();
    pmem_file_write(&mut dev, &mut h, 0, b"hello", 5).unwrap();
    pmem_file_write(&mut dev, &mut h, 5, b" world", 6).unwrap();
    let mut buf = vec![0u8; 11];
    pmem_file_read(&mut dev, &h, 0, &mut buf, 11).unwrap();
    assert_eq!(buf, b"hello world".to_vec());
}

#[test]
fn open_missing_file_fails() {
    let mut dev = PmemDevice::new(true);
    let r = pmem_file_open(&mut dev, "missing_file");
    assert_eq!(r.err(), Some(PmemError::MappingFailure));
}

#[test]
fn write_past_end_is_rejected_before_any_native_call() {
    let mut dev = PmemDevice::new(true);
    let mut h = pmem_file_create(&mut dev, "file_d", 4096).unwrap();
    let steps_before = dev.recorded_steps().len();
    let data = [1u8; 10];
    let r = pmem_file_write(&mut dev, &mut h, 4090, &data, 10);
    assert_eq!(r, Err(PmemError::RangeViolation));
    assert_eq!(dev.recorded_steps().len(), steps_before);
}

#[test]
fn read_past_end_is_rejected_before_any_native_call() {
    let mut dev = PmemDevice::new(true);
    let h = pmem_file_create(&mut dev, "file_e", 8).unwrap();
    let steps_before = dev.recorded_steps().len();
    let mut buf = vec![0u8; 4];
    let r = pmem_file_read(&mut dev, &h, 6, &mut buf, 3);
    assert_eq!(r, Err(PmemError::RangeViolation));
    assert_eq!(dev.recorded_steps().len(), steps_before);
    assert_eq!(buf, vec![0u8; 4]);
}

#[test]
fn exact_boundary_write_is_accepted() {
    let mut dev = PmemDevice::new(true);
    let mut h = pmem_file_create(&mut dev, "file_f", 8).unwrap();
    let data = [5u8, 6, 7];
    assert_eq!(pmem_file_write(&mut dev, &mut h, 5, &data, 3), Ok(()));
}

#[test]
fn post_close_calls_are_rejected() {
    let mut dev = PmemDevice::new(true);
    let mut h = pmem_file_create(&mut dev, "file_g", 8).unwrap();
    pmem_file_close(&mut dev, &mut h).unwrap();
    let steps_before = dev.recorded_steps().len();
    let mut buf = vec![0u8; 4];
    assert_eq!(
        pmem_file_read(&mut dev, &h, 0, &mut buf, 4),
        Err(PmemError::UseAfterClose)
    );
    let data = [1u8, 2];
    assert_eq!(
        pmem_file_write(&mut dev, &mut h, 0, &data, 2),
        Err(PmemError::UseAfterClose)
    );
    assert_eq!(
        pmem_file_close(&mut dev, &mut h),
        Err(PmemError::UseAfterClose)
    );
    assert_eq!(dev.recorded_steps().len(), steps_before);
}

#[test]
fn durability_step_follows_copy_on_true_pmem() {
    let mut dev = PmemDevice::new(true);
    let mut h = pmem_file_create(&mut dev, "file_h", 8).unwrap();
    assert_eq!(dev.recorded_steps().as_slice(), &[PmemStep::MapStep]);
    let data = [1u8, 2, 3];
    pmem_file_write(&mut dev, &mut h, 2, &data, 3).unwrap();
    assert_eq!(
        dev.recorded_steps().as_slice(),
        &[
            PmemStep::MapStep,
            PmemStep::CopyStep { offset: 2, len: 3 },
            PmemStep::FlushStep { offset: 2, len: 3 },
        ]
    );
}

#[test]
fn durability_step_is_sync_on_fallback_mapping() {
    let mut dev = PmemDevice::new(false);
    let mut h = pmem_file_create(&mut dev, "file_i", 8).unwrap();
    let data = [4u8];
    pmem_file_write(&mut dev, &mut h, 0, &data, 1).unwrap();
    assert_eq!(
        dev.recorded_steps().as_slice(),
        &[
            PmemStep::MapStep,
            PmemStep::CopyStep { offset: 0, len: 1 },
            PmemStep::SyncStep { offset: 0, len: 1 },
        ]
    );
}

#[test]
fn create_is_exclusive() {
    let mut dev = PmemDevice::new(true);
    pmem_file_create(&mut dev, "file_j", 8).unwrap();
    let r = pmem_file_create(&mut dev, "file_j", 8);
    assert_eq!(r.err(), Some(PmemError::MappingFailure));
}

#[test]
fn create_rejects_bad_inputs() {
    let mut dev = PmemDevice::new(true);
    assert_eq!(
        pmem_file_create(&mut dev, "", 8).err(),
        Some(PmemError::MappingFailure)
    );
    assert_eq!(
        pmem_file_create(&mut dev, "file_k", 0).err(),
        Some(PmemError::MappingFailure)
    );
}

#[test]
fn read_fault_leaves_buffer_untouched() {
    let mut dev = PmemDevice::new(true);
    let mut h = pmem_file_create(&mut dev, "file_l", 8).unwrap();
    let data = [7u8, 7, 7, 7];
    pmem_file_write(&mut dev, &mut h, 0, &data, 4).unwrap();
    dev.inject_fault(1);
    let mut buf = vec![9u8; 4];
    let r = pmem_file_read(&mut dev, &h, 0, &mut buf, 4);
    assert_eq!(r, Err(PmemError::CopyFailure));
    assert_eq!(buf, vec![9u8; 4]);
    pmem_file_read(&mut dev, &h, 0, &mut buf, 4).unwrap();
    assert_eq!(buf, data.to_vec());
}

#[test]
fn write_fault_at_copy_changes_nothing() {
    let mut dev = PmemDevice::new(true);
    let mut h = pmem_file_create(&mut dev, "file_m", 4).unwrap();
    dev.inject_fault(1);
    let data = [1u8, 2, 3, 4];
    let r = pmem_file_write(&mut dev, &mut h, 0, &data, 4);
    assert_eq!(r, Err(PmemError::CopyFailure));
    let mut buf = vec![9u8; 4];
    pmem_file_read(&mut dev, &h, 0, &mut buf, 4).unwrap();
    assert_eq!(buf, vec![0u8; 4]);
}

#[test]
fn write_fault_at_durability_step_leaves_bytes_visible_but_not_durable() {
    let mut dev = PmemDevice::new(true);
    let mut h = pmem_file_create(&mut dev, "file_n", 4).unwrap();
    pmem_file_write(&mut dev, &mut h, 0, b"AAAA", 4).unwrap();
    dev.inject_fault(2);
    let r = pmem_file_write(&mut dev, &mut h, 0, b"BBBB", 4);
    assert_eq!(r, Err(PmemError::CopyFailure));
    let mut buf = vec![0u8; 4];
    pmem_file_read(&mut dev, &h, 0, &mut buf, 4).unwrap();
    assert_eq!(buf, b"BBBB".to_vec());
    pmem_file_close(&mut dev, &mut h).unwrap();
    let reopened = pmem_file_open(&mut dev, "file_n").unwrap();
    let mut durable = vec![0u8; 4];
    pmem_file_read(&mut dev, &reopened, 0, &mut durable, 4).unwrap();
    assert_eq!(durable, b"AAAA".to_vec());
}

#[test]
fn written_bytes_persist_across_close_and_open() {
    let mut dev = PmemDevice::new(true);
    let mut h = pmem_file_create(&mut dev, "file_o", 12).unwrap();
    pmem_file_write(&mut dev, &mut h, 3, b"durable", 7).unwrap();
    pmem_file_close(&mut dev, &mut h).unwrap();
    let reopened = pmem_file_open(&mut dev, "file_o").unwrap();
    assert_eq!(reopened.mapped_len(), 12);
    let mut buf = vec![0u8; 7];
    pmem_file_read(&mut dev, &reopened, 3, &mut buf, 7).unwrap();
    assert_eq!(buf, b"durable".to_vec());
}

#[test]
fn create_reports_requested_mapped_length() {
    let mut dev = PmemDevice::new(true);
    let h = pmem_file_create(&mut dev, "file_p", 4096).unwrap();
    assert_eq!(h.mapped_len(), 4096);
}

#[test]
fn fresh_file_reads_back_zeroes() {
    let mut dev = PmemDevice::new(true);
    let h = pmem_file_create(&mut dev, "file_q", 6).unwrap();
    let mut buf = vec![5u8; 6];
    pmem_file_read(&mut dev, &h, 0, &mut buf, 6).unwrap();
    assert_eq!(buf, vec![0u8; 6]);
}

#[test]
fn zero_length_read_and_write_succeed() {
    let mut dev = PmemDevice::new(true);
    let mut h = pmem_file_create(&mut dev, "file_r", 4).unwrap();
    let data: [u8; 0] = [];
    assert_eq!(pmem_file_write(&mut dev, &mut h, 4, &data, 0), Ok(()));
    let mut buf: Vec<u8> = Vec::new();
    assert_eq!(pmem_file_read(&mut dev, &h, 4, &mut buf, 0), Ok(()));
}

#[test]
fn open_existing_file_then_write() {
    let mut dev = PmemDevice::new(true);
    let mut h = pmem_file_create(&mut dev, "file_s", 8).unwrap();
    pmem_file_write(&mut dev, &mut h, 0, b"seed", 4).unwrap();
    pmem_file_close(&mut dev, &mut h).unwrap();
    let mut again = pmem_file_open(&mut dev, "file_s").unwrap();
    pmem_file_write(&mut dev, &mut again, 4, b"more", 4).unwrap();
    let mut buf = vec![0u8; 8];
    pmem_file_read(&mut dev, &again, 0, &mut buf, 8).unwrap();
    assert_eq!(buf, b"seedmore".to_vec());
}
