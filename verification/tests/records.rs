//! File-transfer and shell records through their message form.

use fjage_rs::connector::SerialPortConnector;
use fjage_rs::connector::TcpConnector;
use fjage_rs::file::GetFileReq;
use fjage_rs::file::GetFileRsp;
use fjage_rs::file::PutFileReq;
use fjage_rs::message::Performative;
use fjage_rs::shell::ShellExecReq;
use fjage_rs::JsonValue;

#[test]
fn get_file_req_round_trip() {
    let mut req = GetFileReq::new("logs/phy.txt");
    req.ofs = 10;
    req.len = 100;
    let msg = req.to_msg();
    assert_eq!(msg.clazz, "org.arl.fjage.shell.GetFileReq");
    let back = GetFileReq::from_msg(msg).expect("request reads back");
    assert_eq!(back.filename, "logs/phy.txt");
    assert_eq!(back.ofs, 10);
    assert_eq!(back.len, 100);
    assert_eq!(back.msgID, req.msgID);
}

#[test]
fn get_file_rsp_round_trip() {
    let mut rsp = GetFileRsp::new("a.bin");
    rsp.contents = vec![0, 1, 255];
    rsp.ofs = 4;
    let msg = rsp.to_msg();
    assert!(matches!(msg.data.get_field("dir"), JsonValue::Bool(false)));
    let back = GetFileRsp::from_msg(msg).expect("response reads back");
    assert_eq!(back.contents, vec![0, 1, 255]);
    assert_eq!(back.ofs, 4);
    assert!(!back.dir);
}

#[test]
fn put_file_req_carries_text_bytes() {
    let req = PutFileReq::new_contents("hello.txt", "hi!");
    assert_eq!(req.contents, Some(vec![b'h', b'i', b'!']));
    let msg = req.to_msg();
    assert_eq!(msg.clazz, "org.arl.fjage.shell.PutFileReq");
    let back = PutFileReq::from_msg(msg).expect("request reads back");
    assert_eq!(back.filename, "hello.txt");
    assert_eq!(back.contents, Some(vec![b'h', b'i', b'!']));
}

#[test]
fn put_file_req_without_contents_travels_as_null() {
    let mut req = PutFileReq::new("gone.txt");
    req.contents = None;
    let msg = req.to_msg();
    assert!(matches!(msg.data.get_field("contents"), JsonValue::Null));
    let back = PutFileReq::from_msg(msg).expect("request reads back");
    assert_eq!(back.contents, None);
}

#[test]
fn malformed_byte_contents_fail_the_read() {
    let mut rsp = GetFileRsp::new("a.bin");
    rsp.contents = vec![1];
    let mut msg = rsp.to_msg();
    msg.data.set_field("contents", JsonValue::Str("not bytes".to_string()));
    assert!(GetFileRsp::from_msg(msg).is_none());
}

#[test]
fn shell_exec_req_round_trip() {
    let req = ShellExecReq::new("ls scripts");
    assert!(req.ans);
    assert!(matches!(req.perf, Performative::REQUEST));
    let msg = req.to_msg();
    assert_eq!(msg.clazz, "org.arl.fjage.shell.ShellExecReq");
    let back = ShellExecReq::from_msg(msg).expect("request reads back");
    assert_eq!(back.cmd, "ls scripts");
    assert!(back.ans);
}

#[test]
fn connectors_name_their_endpoints() {
    let tcp = TcpConnector::new("192.168.0.42", 1100);
    assert_eq!(tcp.hostname, "192.168.0.42");
    assert_eq!(tcp.port, 1100);
    let serial = SerialPortConnector::new("/dev/ttyUSB0", 115200);
    assert_eq!(serial.dev, "/dev/ttyUSB0");
    assert_eq!(serial.baud, 115200);
}
