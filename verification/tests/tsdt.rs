use mpeg2ts_reader::descriptor;
use mpeg2ts_reader::psi::tsdt::{TsdtSection, TSDT_PID};

#[test]
fn empty_section() {
    let data = [];
    let section = TsdtSection::new(&data);
    let mut descs = section.descriptors::<descriptor::CoreDescriptors<'_>>();
    let mut count = 0;
    while let Some(_d) = descs.next() {
        count += 1;
    }
    assert_eq!(count, 0);
}

#[test]
fn descriptor_iteration() {
    let data = hex::decode("8001AA8102BBCC").unwrap();
    let section = TsdtSection::new(&data);
    let mut descs = section.descriptors::<descriptor::CoreDescriptors<'_>>();
    let mut all = vec![];
    while let Some(d) = descs.next() {
        all.push(d);
    }
    assert_eq!(all.len(), 2);
    assert!(all[0].is_ok());
    assert!(all[1].is_ok());
}

#[test]
fn tsdt_pid_value() {
    assert_eq!(TSDT_PID, 2);
}
