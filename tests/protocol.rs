use sim_telemetry::client::{Client, Poll, CLIENT_TIMEOUT_MS};
use sim_telemetry::header::{Header, VarBuf, VersionMismatch, IRSDK_VER};
use sim_telemetry::region::SharedMemory;
use sim_telemetry::session_info::{parse_session_info, SessionInfoCache, SessionInfoError, SessionLookup};
use sim_telemetry::var_header::{VarType, VAR_HEADER_LEN};

const SESSION_AT: usize = 1024;
const VARS_AT: usize = 2048;
const REGION_LEN: usize = 4096;

fn put_i32(b: &mut [u8], off: usize, v: i32) {
    b[off..off + 4].copy_from_slice(&v.to_le_bytes());
}

struct Region {
    ver: i32,
    status: i32,
    bufs: Vec<(i32, i32)>,
    buf_len: i32,
    session: Vec<u8>,
    session_update: i32,
    vars: Vec<(i32, i32, i32, Vec<u8>)>,
}

impl Region {
    fn new(bufs: &[(i32, i32)], buf_len: i32) -> Region {
        Region {
            ver: IRSDK_VER,
            status: 1,
            bufs: bufs.to_vec(),
            buf_len,
            session: b"WeekendInfo:\n  TrackName: spa\n".to_vec(),
            session_update: 1,
            vars: Vec::new(),
        }
    }

    fn bytes(&self) -> Vec<u8> {
        let mut b: Vec<u8> = (0..REGION_LEN).map(|i| (i % 251) as u8).collect();
        for x in b[..112].iter_mut() {
            *x = 0;
        }
        put_i32(&mut b, 0, self.ver);
        put_i32(&mut b, 4, self.status);
        put_i32(&mut b, 8, 60);
        put_i32(&mut b, 12, self.session_update);
        put_i32(&mut b, 16, self.session.len() as i32 + 1);
        put_i32(&mut b, 20, SESSION_AT as i32);
        put_i32(&mut b, 24, self.vars.len() as i32);
        put_i32(&mut b, 28, VARS_AT as i32);
        put_i32(&mut b, 32, self.bufs.len() as i32);
        put_i32(&mut b, 36, self.buf_len);
        for (k, (tick, off)) in self.bufs.iter().enumerate() {
            put_i32(&mut b, 48 + 16 * k, *tick);
            put_i32(&mut b, 52 + 16 * k, *off);
        }
        b[SESSION_AT..SESSION_AT + self.session.len()].copy_from_slice(&self.session);
        b[SESSION_AT + self.session.len()] = 0;
        for (k, (tag, off, count, name)) in self.vars.iter().enumerate() {
            let at = VARS_AT + VAR_HEADER_LEN * k;
            for x in b[at..at + VAR_HEADER_LEN].iter_mut() {
                *x = 0;
            }
            put_i32(&mut b, at, *tag);
            put_i32(&mut b, at + 4, *off);
            put_i32(&mut b, at + 8, *count);
            b[at + 16..at + 16 + name.len()].copy_from_slice(name);
        }
        b
    }

    fn image(&self) -> SharedMemory {
        SharedMemory::new(self.bytes())
    }
}

fn header_of(image: &SharedMemory) -> Header {
    image.header().expect("header")
}

fn start(r: &Region) -> Client {
    Client::new(&header_of(&r.image())).ok().expect("version accepted")
}

fn header_with_ticks(ticks: &[i32], num_buf: i32) -> Header {
    let mut var_buf: Vec<VarBuf> = ticks.iter().map(|t| VarBuf { tick_count: *t, buf_offset: 0 }).collect();
    while var_buf.len() < 4 {
        var_buf.push(VarBuf { tick_count: 0, buf_offset: 0 });
    }
    Header {
        ver: IRSDK_VER,
        status: 1,
        tick_rate: 60,
        session_info_update: 0,
        session_info_len: 0,
        session_info_offset: 0,
        num_vars: 0,
        var_header_offset: 0,
        num_buf,
        buf_len: 0,
        var_buf,
    }
}

#[test]
fn header_decodes_little_endian_fields() {
    let mut r = Region::new(&[(5, 0), (-2, 64)], 64);
    r.status = 0x0103;
    let h = header_of(&r.image());
    assert_eq!(h.ver, IRSDK_VER);
    assert_eq!(h.status, 0x0103);
    assert_eq!(h.tick_rate, 60);
    assert_eq!(h.num_buf, 2);
    assert_eq!(h.buf_len, 64);
    assert_eq!(h.var_header_offset, VARS_AT as i32);
    assert_eq!(h.var_buf.len(), 4);
    assert_eq!(h.var_buf[0], VarBuf { tick_count: 5, buf_offset: 0 });
    assert_eq!(h.var_buf[1], VarBuf { tick_count: -2, buf_offset: 64 });
    assert!(h.is_header_connected());
}

#[test]
fn short_copy_has_no_header() {
    let image = SharedMemory::new(vec![0u8; 111]);
    assert!(image.header().is_none());
    assert!(!image.is_header_connected());
}

#[test]
fn connected_bit_is_bit_zero() {
    let mut r = Region::new(&[(1, 0)], 8);
    r.status = 2;
    assert!(!r.image().is_header_connected());
    r.status = 3;
    assert!(r.image().is_header_connected());
}

#[test]
fn arbiter_picks_largest_tick() {
    assert_eq!(header_with_ticks(&[3, 9, 4], 3).latest_buffer_index(), 1);
    assert_eq!(header_with_ticks(&[3, 4, 9, 1], 4).latest_buffer_index(), 2);
}

#[test]
fn arbiter_ties_go_to_lowest_index() {
    assert_eq!(header_with_ticks(&[2, 9, 9, 9], 4).latest_buffer_index(), 1);
    assert_eq!(header_with_ticks(&[7, 7], 2).latest_buffer_index(), 0);
}

#[test]
fn arbiter_looks_only_at_live_buffers() {
    assert_eq!(header_with_ticks(&[3, 1, 50, 60], 2).latest_buffer_index(), 0);
    assert_eq!(header_with_ticks(&[3, 1, 50, 60], 0).latest_buffer_index(), 0);
    assert_eq!(header_with_ticks(&[3, 1, 50, 60], 9).latest_buffer_index(), 3);
}

#[test]
fn version_mismatch_is_refused() {
    let mut r = Region::new(&[(5, 0)], 8);
    r.ver = IRSDK_VER + 1;
    let h = header_of(&r.image());
    assert_eq!(
        h.check_version(),
        Err(VersionMismatch { expected: IRSDK_VER, received: IRSDK_VER + 1 })
    );
    assert!(Client::new(&h).is_err());
    r.ver = IRSDK_VER;
    assert!(Client::new(&header_of(&r.image())).is_ok());
}

#[test]
fn two_buffers_freshest_emitted_once() {
    let r = Region::new(&[(5, 0), (7, 64)], 64);
    let image = r.image();
    let bytes = r.bytes();
    let mut c = start(&r);
    assert_eq!(header_of(&image).latest_buffer_index(), 1);
    match c.get_new_sim_state(&image, 7, 1000) {
        Poll::Ready(s) => {
            assert_eq!(s.tick_count, 7);
            assert_eq!(s.buffer_index, 1);
            assert_eq!(s.data, bytes[64..128].to_vec());
        }
        _ => panic!("expected a snapshot"),
    }
    assert!(matches!(c.get_new_sim_state(&image, 7, 1016), Poll::Pending));
}

#[test]
fn torn_copy_is_never_emitted() {
    let r = Region::new(&[(5, 0), (7, 64)], 64);
    let image = r.image();
    let mut c = start(&r);
    assert!(matches!(c.get_new_sim_state(&image, 8, 1000), Poll::Retry));
    assert!(matches!(c.get_new_sim_state(&image, 8, 1001), Poll::Pending));
    assert_eq!(c.last_tick_count, None);
    let fresh = Region::new(&[(9, 0), (8, 64)], 64);
    assert!(matches!(c.get_new_sim_state(&fresh.image(), 10, 1002), Poll::Retry));
    match c.get_new_sim_state(&fresh.image(), 9, 1003) {
        Poll::Ready(s) => assert_eq!(s.tick_count, 9),
        _ => panic!("expected a snapshot"),
    }
}

#[test]
fn emitted_ticks_strictly_increase() {
    let mut c = start(&Region::new(&[(5, 0)], 16));
    let mut seen: Vec<i32> = Vec::new();
    for (k, tick) in [5, 5, 6, 4, 6, 9, 8, 12].iter().enumerate() {
        let r = Region::new(&[(*tick, 0), (*tick - 1, 64)], 16);
        if let Poll::Ready(s) = c.get_new_sim_state(&r.image(), *tick, 100 + k as u64) {
            seen.push(s.tick_count);
        }
    }
    assert_eq!(seen, vec![5, 6, 9, 12]);
}

#[test]
fn stale_client_times_out_for_good() {
    let r = Region::new(&[(5, 0), (7, 64)], 64);
    let mut c = start(&r);
    assert!(matches!(c.get_new_sim_state(&r.image(), 7, 1000), Poll::Ready(_)));
    let same = r.image();
    assert!(matches!(c.get_new_sim_state(&same, 7, 1000 + CLIENT_TIMEOUT_MS - 1), Poll::Pending));
    assert!(matches!(c.get_new_sim_state(&same, 7, 1000 + CLIENT_TIMEOUT_MS), Poll::Disconnected));
    let newer = Region::new(&[(50, 0), (7, 64)], 64);
    assert!(matches!(c.get_new_sim_state(&newer.image(), 50, 1000 + CLIENT_TIMEOUT_MS + 1), Poll::Disconnected));
}

#[test]
fn cleared_status_bit_disconnects() {
    let mut r = Region::new(&[(5, 0)], 16);
    let mut c = start(&r);
    r.status = 0;
    assert!(matches!(c.get_new_sim_state(&r.image(), 5, 10), Poll::Disconnected));
    assert_eq!(c.last_tick_count, None);
    r.status = 1;
    assert!(matches!(c.get_new_sim_state(&r.image(), 5, 11), Poll::Disconnected));
}

#[test]
fn connected_without_reads_has_no_timeout() {
    let r = Region::new(&[(5, 0)], 16);
    let c = start(&r);
    let h = header_of(&r.image());
    assert!(c.is_connected(&h, u64::MAX));
}

#[test]
fn clock_going_backwards_disconnects() {
    let r = Region::new(&[(5, 0)], 16);
    let mut c = start(&r);
    assert!(matches!(c.get_new_sim_state(&r.image(), 5, 5000), Poll::Ready(_)));
    assert!(!c.is_connected(&header_of(&r.image()), 4999));
}

#[test]
fn buffer_outside_region_gives_no_snapshot() {
    let r = Region::new(&[(5, 4090)], 16);
    let mut c = start(&r);
    assert!(matches!(c.get_new_sim_state(&r.image(), 5, 1), Poll::Pending));
    assert_eq!(c.last_tick_count, None);
}

#[test]
fn metadata_parsed_only_when_counter_moves() {
    let mut r = Region::new(&[(5, 0)], 16);
    let mut cache = SessionInfoCache::new();
    let h = header_of(&r.image());
    assert!(matches!(cache.get(&r.image(), &h), Ok(SessionLookup::Parsed(_))));
    let mut kinds: Vec<&str> = Vec::new();
    for update in [1, 1, 2] {
        r.session_update = update;
        let image = r.image();
        let h = header_of(&image);
        match cache.get(&image, &h) {
            Ok(SessionLookup::Cached(_)) => kinds.push("cached"),
            Ok(SessionLookup::Parsed(_)) => kinds.push("parsed"),
            Err(_) => kinds.push("error"),
        }
    }
    assert_eq!(kinds, vec!["cached", "cached", "parsed"]);
}

#[test]
fn metadata_parse_failure_keeps_cache() {
    let mut r = Region::new(&[(5, 0)], 16);
    let mut cache = SessionInfoCache::new();
    assert!(cache.get(&r.image(), &header_of(&r.image())).is_ok());
    r.session_update = 2;
    r.session = b"a: [1, 2\n".to_vec();
    assert!(matches!(cache.get(&r.image(), &header_of(&r.image())), Err(SessionInfoError::Syntax)));
    assert_eq!(cache.content.as_ref().map(|c| c.0), Some(1));
}

#[test]
fn metadata_blob_outside_region() {
    let r = Region::new(&[(5, 0)], 16);
    let mut h = header_of(&r.image());
    h.session_info_offset = 4000;
    h.session_info_len = 200;
    h.session_info_update = 3;
    let mut cache = SessionInfoCache::new();
    assert!(matches!(cache.get(&r.image(), &h), Err(SessionInfoError::OutOfBounds)));
}

#[test]
fn session_text_parses_to_first_document() {
    let doc = parse_session_info(b"WeekendInfo:\n  TrackName: spa\n\0garbage: [").ok().expect("yaml");
    assert_eq!(doc["WeekendInfo"]["TrackName"].as_str(), Some("spa"));
    let latin = parse_session_info(b"Driver: M\xfcller\n").ok().expect("yaml");
    assert_eq!(latin["Driver"].as_str(), Some("M\u{fc}ller"));
}

#[test]
fn session_text_errors() {
    assert!(matches!(parse_session_info(b"a: [1, 2\n"), Err(SessionInfoError::Syntax)));
    assert!(matches!(parse_session_info(b"\0a: 1\n"), Err(SessionInfoError::Empty)));
}

#[test]
fn snapshot_carries_metadata_and_channels() {
    let mut r = Region::new(&[(5, 0), (7, 64)], 64);
    r.vars = vec![(4, 0, 1, b"Speed".to_vec()), (2, 4, 2, b"Gear".to_vec())];
    let mut c = start(&r);
    match c.get_new_sim_state(&r.image(), 7, 1) {
        Poll::Ready(s) => {
            assert_eq!(s.session_info["WeekendInfo"]["TrackName"].as_str(), Some("spa"));
            assert_eq!(s.vars.len(), 2);
            assert_eq!(s.vars[0].name, "Speed");
            assert_eq!(s.vars[1].name, "Gear");
            assert_eq!(s.vars[1].var_type, VarType::Int);
        }
        _ => panic!("expected a snapshot"),
    }
}

#[test]
fn bad_metadata_discards_the_cycle() {
    let mut r = Region::new(&[(5, 0)], 16);
    r.session = b"a: [1, 2\n".to_vec();
    let mut c = start(&r);
    assert!(matches!(c.get_new_sim_state(&r.image(), 5, 1), Poll::Pending));
    r.session = b"a: 1\n".to_vec();
    r.session_update = 2;
    assert!(matches!(c.get_new_sim_state(&r.image(), 5, 2), Poll::Ready(_)));
}

#[test]
fn overlong_line_is_refused_before_parsing() {
    let mut text = String::from("a: ");
    text.push_str(&"b".repeat(sim_telemetry::session_info::MAX_LINE));
    text.push('\n');
    assert!(matches!(parse_session_info(text.as_bytes()), Err(SessionInfoError::LineTooLong)));
    let deep = "- ".repeat(300) + "x\n";
    assert!(matches!(parse_session_info(deep.as_bytes()), Err(SessionInfoError::LineTooLong)));
}

#[test]
fn deepest_nesting_within_line_bound_parses() {
    let limit = sim_telemetry::session_info::MAX_LINE;
    let mut text = String::new();
    for depth in 0..(limit - 3) {
        text.push_str(&" ".repeat(depth));
        text.push_str("a:\n");
    }
    text.push_str(&" ".repeat(limit - 3));
    text.push_str("1\n");
    assert!(parse_session_info(text.as_bytes()).is_ok());
    let seq = "- ".repeat(limit / 2 - 1) + "x\n";
    assert!(parse_session_info(seq.as_bytes()).is_ok());
    let flow = "[".repeat(250) + &"]".repeat(250) + "\n";
    assert!(parse_session_info(flow.as_bytes()).is_ok());
}

#[test]
fn empty_document_error_reaches_the_cache() {
    let mut r = Region::new(&[(5, 0)], 16);
    r.session = b"# only a comment\n".to_vec();
    let mut cache = SessionInfoCache::new();
    assert!(matches!(cache.get(&r.image(), &header_of(&r.image())), Err(SessionInfoError::Empty)));
    assert!(cache.content.is_none());
}

#[test]
fn cached_lookup_hands_out_the_cached_document() {
    let r = Region::new(&[(5, 0)], 16);
    let mut cache = SessionInfoCache::new();
    let first = match cache.get(&r.image(), &header_of(&r.image())) {
        Ok(SessionLookup::Parsed(d)) => d,
        _ => panic!("expected a parse"),
    };
    match cache.get(&r.image(), &header_of(&r.image())) {
        Ok(SessionLookup::Cached(d)) => assert!(std::sync::Arc::ptr_eq(&d, &first)),
        _ => panic!("expected the cached document"),
    }
}

#[test]
fn untorn_read_keeps_link_alive_despite_bad_metadata() {
    let mut r = Region::new(&[(5, 0)], 16);
    r.session = b"a: [1, 2\n".to_vec();
    let mut c = start(&r);
    assert!(matches!(c.get_new_sim_state(&r.image(), 5, 1000), Poll::Pending));
    assert_eq!(c.last_valid_time, Some(1000));
    assert_eq!(c.last_tick_count, None);
    let t = 1000 + CLIENT_TIMEOUT_MS - 1;
    assert!(matches!(c.get_new_sim_state(&r.image(), 5, t), Poll::Pending));
    assert_eq!(c.last_valid_time, Some(t));
    assert!(matches!(c.get_new_sim_state(&r.image(), 6, t + 100), Poll::Retry));
    assert_eq!(c.last_valid_time, Some(t));
}

#[test]
fn snapshot_shares_client_table_and_metadata() {
    let mut r = Region::new(&[(5, 0)], 16);
    r.vars = vec![(2, 0, 1, b"Gear".to_vec())];
    let mut c = start(&r);
    assert!(c.vars.is_empty());
    match c.get_new_sim_state(&r.image(), 5, 1) {
        Poll::Ready(s) => {
            assert!(std::sync::Arc::ptr_eq(&s.vars, &c.vars));
            let cached = &c.session_info_cache.content.as_ref().expect("cached").1;
            assert!(std::sync::Arc::ptr_eq(&s.session_info, cached));
        }
        _ => panic!("expected a snapshot"),
    }
    assert_eq!(c.vars_at_buf_len, Some(16));
}

#[test]
fn region_extent_covers_located_parts() {
    let mut r = Region::new(&[(5, 0), (7, 64)], 64);
    assert_eq!(header_of(&r.image()).region_extent(), 2048);
    r.vars = vec![(2, 0, 1, b"Gear".to_vec()), (2, 4, 1, b"Rpm".to_vec())];
    assert_eq!(header_of(&r.image()).region_extent(), 2048 + 288);
    let mut h = header_with_ticks(&[1, 2, 3, 4], 2);
    h.var_buf[1].buf_offset = 500;
    h.var_buf[3].buf_offset = 9000;
    h.buf_len = 100;
    h.session_info_offset = -5;
    h.session_info_len = 10_000;
    assert_eq!(h.region_extent(), 600);
}
