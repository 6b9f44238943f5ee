//! What the device promises of the requests that clients send, stated on their
//! bytes.

use vstd::prelude::*;
use vstd::utf8::{
    encode_utf8, encode_utf8_decode_utf8, encode_utf8_valid_utf8, is_ascii_chars,
    is_ascii_chars_encode_utf8,
};
use crate::text::{
    bool_text, decimal, decimal_read_back, find_from, find_from_at, first_in, first_in_at,
    first_not_in, is_digit, is_space, read_unsigned, starts_with, trim, trim_of_trimmed, trim_start,
};
use super::http::{
    bare_value, body_of, bool_field, config_body, field_value, probe_name_body, profile_steps,
    quoted_key, request_of, routed, step_in, steps_after, string_field, temperature_text, text_body, u32_field, url_name,
    value_end, Request,
};

verus! {

/// Whether bytes start with this method and path and then a space or a line
/// end.
pub open spec fn begins(buf: Seq<u8>, line: Seq<char>) -> bool {
    let p = encode_utf8(line);
    &&& buf.len() > p.len()
    &&& buf.take(p.len() as int) == p
    &&& buf[p.len() as int] == 32 || buf[p.len() as int] == 13
}

/// The bytes of a request that is routed to a path in ASCII are its characters.
proof fn path_bytes(buf: Seq<u8>, path: Seq<char>, query: bool)
    requires
        is_ascii_chars(path),
    ensures
        routed(buf, path, query) || begins(buf, path) ==> buf.len() > path.len() && forall|i: int|
            0 <= i < path.len() ==> #[trigger] buf[i] == path[i] as u8,
        routed(buf, path, query) ==> buf[path.len() as int] == 32 || buf[path.len() as int] == 13
            || (query && buf[path.len() as int] == 63),
        begins(buf, path) ==> routed(buf, path, query) && (buf[path.len() as int] == 32
            || buf[path.len() as int] == 13),
{
    is_ascii_chars_encode_utf8(path);
    let p = encode_utf8(path);
    if routed(buf, path, query) || begins(buf, path) {
        assert forall|i: int| 0 <= i < path.len() implies #[trigger] buf[i] == path[i] as u8 by {
            assert(buf[i] == buf.take(p.len() as int)[i]);
        }
    }
}

proof fn root_bytes(buf: Seq<u8>)
    ensures
        routed(buf, "GET /"@, true) || begins(buf, "GET /"@) ==> buf.len() > 5,
        routed(buf, "GET /"@, true) || begins(buf, "GET /"@) ==> ({
            buf[0] == 71 && buf[1] == 69 && buf[2] == 84 && buf[3] == 32 && buf[4] == 47
        }),
        routed(buf, "GET /"@, true) ==> buf[5] == 32 || buf[5] == 13 || buf[5] == 63,
        begins(buf, "GET /"@) ==> routed(buf, "GET /"@, true) && (buf[5] == 32 || buf[5] == 13),
{
    let path = "GET /"@;
    assert(is_ascii_chars(path) && path.len() == 5) by {
        reveal_strlit("GET /");
    }
    path_bytes(buf, path, true);
    if routed(buf, path, true) || begins(buf, path) {
        assert(buf[0] == 71 && buf[1] == 69 && buf[2] == 84 && buf[3] == 32 && buf[4] == 47) by {
            reveal_strlit("GET /");
        }
    }
}

proof fn status_bytes(buf: Seq<u8>)
    ensures
        routed(buf, "GET /status"@, true) || begins(buf, "GET /status"@) ==> buf.len() > 11,
        routed(buf, "GET /status"@, true) || begins(buf, "GET /status"@) ==> ({
            buf[0] == 71 && buf[1] == 69 && buf[2] == 84 && buf[3] == 32 && buf[4] == 47
                && buf[5] == 115 && buf[6] == 116 && buf[7] == 97 && buf[8] == 116
                && buf[9] == 117 && buf[10] == 115
        }),
        routed(buf, "GET /status"@, true) ==> buf[11] == 32 || buf[11] == 13 || buf[11] == 63,
        begins(buf, "GET /status"@) ==> routed(buf, "GET /status"@, true) && (buf[11] == 32 || buf[11] == 13),
{
    let path = "GET /status"@;
    assert(is_ascii_chars(path) && path.len() == 11) by {
        reveal_strlit("GET /status");
    }
    path_bytes(buf, path, true);
    if routed(buf, path, true) || begins(buf, path) {
        assert(buf[0] == 71 && buf[1] == 69 && buf[2] == 84 && buf[3] == 32 && buf[4] == 47 && buf[5] == 115 && buf[6] == 116 && buf[7] == 97 && buf[8] == 116 && buf[9] == 117 && buf[10] == 115) by {
            reveal_strlit("GET /status");
        }
    }
}

proof fn history_bytes(buf: Seq<u8>)
    ensures
        routed(buf, "GET /history"@, true) || begins(buf, "GET /history"@) ==> buf.len() > 12,
        routed(buf, "GET /history"@, true) || begins(buf, "GET /history"@) ==> ({
            buf[0] == 71 && buf[1] == 69 && buf[2] == 84 && buf[3] == 32 && buf[4] == 47
                && buf[5] == 104 && buf[6] == 105 && buf[7] == 115 && buf[8] == 116
                && buf[9] == 111 && buf[10] == 114 && buf[11] == 121
        }),
        routed(buf, "GET /history"@, true) ==> buf[12] == 32 || buf[12] == 13 || buf[12] == 63,
        begins(buf, "GET /history"@) ==> routed(buf, "GET /history"@, true) && (buf[12] == 32 || buf[12] == 13),
{
    let path = "GET /history"@;
    assert(is_ascii_chars(path) && path.len() == 12) by {
        reveal_strlit("GET /history");
    }
    path_bytes(buf, path, true);
    if routed(buf, path, true) || begins(buf, path) {
        assert(buf[0] == 71 && buf[1] == 69 && buf[2] == 84 && buf[3] == 32 && buf[4] == 47 && buf[5] == 104 && buf[6] == 105 && buf[7] == 115 && buf[8] == 116 && buf[9] == 111 && buf[10] == 114 && buf[11] == 121) by {
            reveal_strlit("GET /history");
        }
    }
}

proof fn scan_bytes(buf: Seq<u8>)
    ensures
        routed(buf, "GET /sensors/scan"@, true) || begins(buf, "GET /sensors/scan"@) ==> buf.len() > 17,
        routed(buf, "GET /sensors/scan"@, true) || begins(buf, "GET /sensors/scan"@) ==> ({
            buf[0] == 71 && buf[1] == 69 && buf[2] == 84 && buf[3] == 32 && buf[4] == 47
                && buf[5] == 115 && buf[6] == 101 && buf[7] == 110 && buf[8] == 115
                && buf[9] == 111 && buf[10] == 114 && buf[11] == 115 && buf[12] == 47
                && buf[13] == 115 && buf[14] == 99 && buf[15] == 97 && buf[16] == 110
        }),
        routed(buf, "GET /sensors/scan"@, true) ==> buf[17] == 32 || buf[17] == 13 || buf[17] == 63,
        begins(buf, "GET /sensors/scan"@) ==> routed(buf, "GET /sensors/scan"@, true) && (buf[17] == 32 || buf[17] == 13),
{
    let path = "GET /sensors/scan"@;
    assert(is_ascii_chars(path) && path.len() == 17) by {
        reveal_strlit("GET /sensors/scan");
    }
    path_bytes(buf, path, true);
    if routed(buf, path, true) || begins(buf, path) {
        assert(buf[0] == 71 && buf[1] == 69 && buf[2] == 84 && buf[3] == 32 && buf[4] == 47 && buf[5] == 115 && buf[6] == 101 && buf[7] == 110 && buf[8] == 115 && buf[9] == 111 && buf[10] == 114 && buf[11] == 115 && buf[12] == 47 && buf[13] == 115 && buf[14] == 99 && buf[15] == 97 && buf[16] == 110) by {
            reveal_strlit("GET /sensors/scan");
        }
    }
}

proof fn metrics_bytes(buf: Seq<u8>)
    ensures
        routed(buf, "GET /metrics"@, true) || begins(buf, "GET /metrics"@) ==> buf.len() > 12,
        routed(buf, "GET /metrics"@, true) || begins(buf, "GET /metrics"@) ==> ({
            buf[0] == 71 && buf[1] == 69 && buf[2] == 84 && buf[3] == 32 && buf[4] == 47
                && buf[5] == 109 && buf[6] == 101 && buf[7] == 116 && buf[8] == 114
                && buf[9] == 105 && buf[10] == 99 && buf[11] == 115
        }),
        routed(buf, "GET /metrics"@, true) ==> buf[12] == 32 || buf[12] == 13 || buf[12] == 63,
        begins(buf, "GET /metrics"@) ==> routed(buf, "GET /metrics"@, true) && (buf[12] == 32 || buf[12] == 13),
{
    let path = "GET /metrics"@;
    assert(is_ascii_chars(path) && path.len() == 12) by {
        reveal_strlit("GET /metrics");
    }
    path_bytes(buf, path, true);
    if routed(buf, path, true) || begins(buf, path) {
        assert(buf[0] == 71 && buf[1] == 69 && buf[2] == 84 && buf[3] == 32 && buf[4] == 47 && buf[5] == 109 && buf[6] == 101 && buf[7] == 116 && buf[8] == 114 && buf[9] == 105 && buf[10] == 99 && buf[11] == 115) by {
            reveal_strlit("GET /metrics");
        }
    }
}

proof fn flags_bytes(buf: Seq<u8>)
    ensures
        routed(buf, "GET /config"@, false) || begins(buf, "GET /config"@) ==> buf.len() > 11,
        routed(buf, "GET /config"@, false) || begins(buf, "GET /config"@) ==> ({
            buf[0] == 71 && buf[1] == 69 && buf[2] == 84 && buf[3] == 32 && buf[4] == 47
                && buf[5] == 99 && buf[6] == 111 && buf[7] == 110 && buf[8] == 102
                && buf[9] == 105 && buf[10] == 103
        }),
        routed(buf, "GET /config"@, false) ==> buf[11] == 32 || buf[11] == 13,
        begins(buf, "GET /config"@) ==> routed(buf, "GET /config"@, false) && (buf[11] == 32 || buf[11] == 13),
{
    let path = "GET /config"@;
    assert(is_ascii_chars(path) && path.len() == 11) by {
        reveal_strlit("GET /config");
    }
    path_bytes(buf, path, false);
    if routed(buf, path, false) || begins(buf, path) {
        assert(buf[0] == 71 && buf[1] == 69 && buf[2] == 84 && buf[3] == 32 && buf[4] == 47 && buf[5] == 99 && buf[6] == 111 && buf[7] == 110 && buf[8] == 102 && buf[9] == 105 && buf[10] == 103) by {
            reveal_strlit("GET /config");
        }
    }
}

proof fn temperature_bytes(buf: Seq<u8>)
    ensures
        routed(buf, "POST /temperature"@, false) || begins(buf, "POST /temperature"@) ==> buf.len() > 17,
        routed(buf, "POST /temperature"@, false) || begins(buf, "POST /temperature"@) ==> ({
            buf[0] == 80 && buf[1] == 79 && buf[2] == 83 && buf[3] == 84 && buf[4] == 32
                && buf[5] == 47 && buf[6] == 116 && buf[7] == 101 && buf[8] == 109
                && buf[9] == 112 && buf[10] == 101 && buf[11] == 114 && buf[12] == 97
                && buf[13] == 116 && buf[14] == 117 && buf[15] == 114 && buf[16] == 101
        }),
        routed(buf, "POST /temperature"@, false) ==> buf[17] == 32 || buf[17] == 13,
        begins(buf, "POST /temperature"@) ==> routed(buf, "POST /temperature"@, false) && (buf[17] == 32 || buf[17] == 13),
{
    let path = "POST /temperature"@;
    assert(is_ascii_chars(path) && path.len() == 17) by {
        reveal_strlit("POST /temperature");
    }
    path_bytes(buf, path, false);
    if routed(buf, path, false) || begins(buf, path) {
        assert(buf[0] == 80 && buf[1] == 79 && buf[2] == 83 && buf[3] == 84 && buf[4] == 32 && buf[5] == 47 && buf[6] == 116 && buf[7] == 101 && buf[8] == 109 && buf[9] == 112 && buf[10] == 101 && buf[11] == 114 && buf[12] == 97 && buf[13] == 116 && buf[14] == 117 && buf[15] == 114 && buf[16] == 101) by {
            reveal_strlit("POST /temperature");
        }
    }
}

proof fn probe_name_bytes(buf: Seq<u8>)
    ensures
        routed(buf, "POST /probe-name"@, false) || begins(buf, "POST /probe-name"@) ==> buf.len() > 16,
        routed(buf, "POST /probe-name"@, false) || begins(buf, "POST /probe-name"@) ==> ({
            buf[0] == 80 && buf[1] == 79 && buf[2] == 83 && buf[3] == 84 && buf[4] == 32
                && buf[5] == 47 && buf[6] == 112 && buf[7] == 114 && buf[8] == 111
                && buf[9] == 98 && buf[10] == 101 && buf[11] == 45 && buf[12] == 110
                && buf[13] == 97 && buf[14] == 109 && buf[15] == 101
        }),
        routed(buf, "POST /probe-name"@, false) ==> buf[16] == 32 || buf[16] == 13,
        begins(buf, "POST /probe-name"@) ==> routed(buf, "POST /probe-name"@, false) && (buf[16] == 32 || buf[16] == 13),
{
    let path = "POST /probe-name"@;
    assert(is_ascii_chars(path) && path.len() == 16) by {
        reveal_strlit("POST /probe-name");
    }
    path_bytes(buf, path, false);
    if routed(buf, path, false) || begins(buf, path) {
        assert(buf[0] == 80 && buf[1] == 79 && buf[2] == 83 && buf[3] == 84 && buf[4] == 32 && buf[5] == 47 && buf[6] == 112 && buf[7] == 114 && buf[8] == 111 && buf[9] == 98 && buf[10] == 101 && buf[11] == 45 && buf[12] == 110 && buf[13] == 97 && buf[14] == 109 && buf[15] == 101) by {
            reveal_strlit("POST /probe-name");
        }
    }
}

proof fn start_bytes(buf: Seq<u8>)
    ensures
        routed(buf, "POST /collection/start"@, false) || begins(buf, "POST /collection/start"@) ==> buf.len() > 22,
        routed(buf, "POST /collection/start"@, false) || begins(buf, "POST /collection/start"@) ==> ({
            buf[0] == 80 && buf[1] == 79 && buf[2] == 83 && buf[3] == 84 && buf[4] == 32
                && buf[5] == 47 && buf[6] == 99 && buf[7] == 111 && buf[8] == 108
                && buf[9] == 108 && buf[10] == 101 && buf[11] == 99 && buf[12] == 116
                && buf[13] == 105 && buf[14] == 111 && buf[15] == 110 && buf[16] == 47
                && buf[17] == 115 && buf[18] == 116 && buf[19] == 97 && buf[20] == 114
                && buf[21] == 116
        }),
        routed(buf, "POST /collection/start"@, false) ==> buf[22] == 32 || buf[22] == 13,
        begins(buf, "POST /collection/start"@) ==> routed(buf, "POST /collection/start"@, false) && (buf[22] == 32 || buf[22] == 13),
{
    let path = "POST /collection/start"@;
    assert(is_ascii_chars(path) && path.len() == 22) by {
        reveal_strlit("POST /collection/start");
    }
    path_bytes(buf, path, false);
    if routed(buf, path, false) || begins(buf, path) {
        assert(buf[0] == 80 && buf[1] == 79 && buf[2] == 83 && buf[3] == 84 && buf[4] == 32 && buf[5] == 47 && buf[6] == 99 && buf[7] == 111 && buf[8] == 108 && buf[9] == 108 && buf[10] == 101 && buf[11] == 99 && buf[12] == 116 && buf[13] == 105 && buf[14] == 111 && buf[15] == 110 && buf[16] == 47 && buf[17] == 115 && buf[18] == 116 && buf[19] == 97 && buf[20] == 114 && buf[21] == 116) by {
            reveal_strlit("POST /collection/start");
        }
    }
}

proof fn stop_bytes(buf: Seq<u8>)
    ensures
        routed(buf, "POST /collection/stop"@, false) || begins(buf, "POST /collection/stop"@) ==> buf.len() > 21,
        routed(buf, "POST /collection/stop"@, false) || begins(buf, "POST /collection/stop"@) ==> ({
            buf[0] == 80 && buf[1] == 79 && buf[2] == 83 && buf[3] == 84 && buf[4] == 32
                && buf[5] == 47 && buf[6] == 99 && buf[7] == 111 && buf[8] == 108
                && buf[9] == 108 && buf[10] == 101 && buf[11] == 99 && buf[12] == 116
                && buf[13] == 105 && buf[14] == 111 && buf[15] == 110 && buf[16] == 47
                && buf[17] == 115 && buf[18] == 116 && buf[19] == 111 && buf[20] == 112
        }),
        routed(buf, "POST /collection/stop"@, false) ==> buf[21] == 32 || buf[21] == 13,
        begins(buf, "POST /collection/stop"@) ==> routed(buf, "POST /collection/stop"@, false) && (buf[21] == 32 || buf[21] == 13),
{
    let path = "POST /collection/stop"@;
    assert(is_ascii_chars(path) && path.len() == 21) by {
        reveal_strlit("POST /collection/stop");
    }
    path_bytes(buf, path, false);
    if routed(buf, path, false) || begins(buf, path) {
        assert(buf[0] == 80 && buf[1] == 79 && buf[2] == 83 && buf[3] == 84 && buf[4] == 32 && buf[5] == 47 && buf[6] == 99 && buf[7] == 111 && buf[8] == 108 && buf[9] == 108 && buf[10] == 101 && buf[11] == 99 && buf[12] == 116 && buf[13] == 105 && buf[14] == 111 && buf[15] == 110 && buf[16] == 47 && buf[17] == 115 && buf[18] == 116 && buf[19] == 111 && buf[20] == 112) by {
            reveal_strlit("POST /collection/stop");
        }
    }
}

proof fn clear_bytes(buf: Seq<u8>)
    ensures
        routed(buf, "POST /history/clear"@, false) || begins(buf, "POST /history/clear"@) ==> buf.len() > 19,
        routed(buf, "POST /history/clear"@, false) || begins(buf, "POST /history/clear"@) ==> ({
            buf[0] == 80 && buf[1] == 79 && buf[2] == 83 && buf[3] == 84 && buf[4] == 32
                && buf[5] == 47 && buf[6] == 104 && buf[7] == 105 && buf[8] == 115
                && buf[9] == 116 && buf[10] == 111 && buf[11] == 114 && buf[12] == 121
                && buf[13] == 47 && buf[14] == 99 && buf[15] == 108 && buf[16] == 101
                && buf[17] == 97 && buf[18] == 114
        }),
        routed(buf, "POST /history/clear"@, false) ==> buf[19] == 32 || buf[19] == 13,
        begins(buf, "POST /history/clear"@) ==> routed(buf, "POST /history/clear"@, false) && (buf[19] == 32 || buf[19] == 13),
{
    let path = "POST /history/clear"@;
    assert(is_ascii_chars(path) && path.len() == 19) by {
        reveal_strlit("POST /history/clear");
    }
    path_bytes(buf, path, false);
    if routed(buf, path, false) || begins(buf, path) {
        assert(buf[0] == 80 && buf[1] == 79 && buf[2] == 83 && buf[3] == 84 && buf[4] == 32 && buf[5] == 47 && buf[6] == 104 && buf[7] == 105 && buf[8] == 115 && buf[9] == 116 && buf[10] == 111 && buf[11] == 114 && buf[12] == 121 && buf[13] == 47 && buf[14] == 99 && buf[15] == 108 && buf[16] == 101 && buf[17] == 97 && buf[18] == 114) by {
            reveal_strlit("POST /history/clear");
        }
    }
}

proof fn config_bytes(buf: Seq<u8>)
    ensures
        routed(buf, "POST /config"@, false) || begins(buf, "POST /config"@) ==> buf.len() > 12,
        routed(buf, "POST /config"@, false) || begins(buf, "POST /config"@) ==> ({
            buf[0] == 80 && buf[1] == 79 && buf[2] == 83 && buf[3] == 84 && buf[4] == 32
                && buf[5] == 47 && buf[6] == 99 && buf[7] == 111 && buf[8] == 110
                && buf[9] == 102 && buf[10] == 105 && buf[11] == 103
        }),
        routed(buf, "POST /config"@, false) ==> buf[12] == 32 || buf[12] == 13,
        begins(buf, "POST /config"@) ==> routed(buf, "POST /config"@, false) && (buf[12] == 32 || buf[12] == 13),
{
    let path = "POST /config"@;
    assert(is_ascii_chars(path) && path.len() == 12) by {
        reveal_strlit("POST /config");
    }
    path_bytes(buf, path, false);
    if routed(buf, path, false) || begins(buf, path) {
        assert(buf[0] == 80 && buf[1] == 79 && buf[2] == 83 && buf[3] == 84 && buf[4] == 32 && buf[5] == 47 && buf[6] == 99 && buf[7] == 111 && buf[8] == 110 && buf[9] == 102 && buf[10] == 105 && buf[11] == 103) by {
            reveal_strlit("POST /config");
        }
    }
}

proof fn profiles_bytes(buf: Seq<u8>)
    ensures
        routed(buf, "GET /profiles"@, true) || begins(buf, "GET /profiles"@) ==> buf.len() > 13,
        routed(buf, "GET /profiles"@, true) || begins(buf, "GET /profiles"@) ==> ({
            buf[0] == 71 && buf[1] == 69 && buf[2] == 84 && buf[3] == 32 && buf[4] == 47
                && buf[5] == 112 && buf[6] == 114 && buf[7] == 111 && buf[8] == 102
                && buf[9] == 105 && buf[10] == 108 && buf[11] == 101 && buf[12] == 115
        }),
        routed(buf, "GET /profiles"@, true) ==> buf[13] == 32 || buf[13] == 13 || buf[13] == 63,
        begins(buf, "GET /profiles"@) ==> routed(buf, "GET /profiles"@, true) && (buf[13] == 32 || buf[13] == 13),
{
    let path = "GET /profiles"@;
    assert(is_ascii_chars(path) && path.len() == 13) by {
        reveal_strlit("GET /profiles");
    }
    path_bytes(buf, path, true);
    if routed(buf, path, true) || begins(buf, path) {
        assert(buf[0] == 71 && buf[1] == 69 && buf[2] == 84 && buf[3] == 32 && buf[4] == 47 && buf[5] == 112 && buf[6] == 114 && buf[7] == 111 && buf[8] == 102 && buf[9] == 105 && buf[10] == 108 && buf[11] == 101 && buf[12] == 115) by {
            reveal_strlit("GET /profiles");
        }
    }
}

proof fn active_bytes(buf: Seq<u8>)
    ensures
        routed(buf, "GET /profiles/active"@, false) || begins(buf, "GET /profiles/active"@) ==> buf.len() > 20,
        routed(buf, "GET /profiles/active"@, false) || begins(buf, "GET /profiles/active"@) ==> ({
            buf[0] == 71 && buf[1] == 69 && buf[2] == 84 && buf[3] == 32 && buf[4] == 47
                && buf[5] == 112 && buf[6] == 114 && buf[7] == 111 && buf[8] == 102
                && buf[9] == 105 && buf[10] == 108 && buf[11] == 101 && buf[12] == 115
                && buf[13] == 47 && buf[14] == 97 && buf[15] == 99 && buf[16] == 116
                && buf[17] == 105 && buf[18] == 118 && buf[19] == 101
        }),
        routed(buf, "GET /profiles/active"@, false) ==> buf[20] == 32 || buf[20] == 13,
        begins(buf, "GET /profiles/active"@) ==> routed(buf, "GET /profiles/active"@, false) && (buf[20] == 32 || buf[20] == 13),
{
    let path = "GET /profiles/active"@;
    assert(is_ascii_chars(path) && path.len() == 20) by {
        reveal_strlit("GET /profiles/active");
    }
    path_bytes(buf, path, false);
    if routed(buf, path, false) || begins(buf, path) {
        assert(buf[0] == 71 && buf[1] == 69 && buf[2] == 84 && buf[3] == 32 && buf[4] == 47 && buf[5] == 112 && buf[6] == 114 && buf[7] == 111 && buf[8] == 102 && buf[9] == 105 && buf[10] == 108 && buf[11] == 101 && buf[12] == 115 && buf[13] == 47 && buf[14] == 97 && buf[15] == 99 && buf[16] == 116 && buf[17] == 105 && buf[18] == 118 && buf[19] == 101) by {
            reveal_strlit("GET /profiles/active");
        }
    }
}

proof fn profile_stop_bytes(buf: Seq<u8>)
    ensures
        routed(buf, "POST /profiles/stop"@, false) || begins(buf, "POST /profiles/stop"@) ==> buf.len() > 19,
        routed(buf, "POST /profiles/stop"@, false) || begins(buf, "POST /profiles/stop"@) ==> ({
            buf[0] == 80 && buf[1] == 79 && buf[2] == 83 && buf[3] == 84 && buf[4] == 32
                && buf[5] == 47 && buf[6] == 112 && buf[7] == 114 && buf[8] == 111
                && buf[9] == 102 && buf[10] == 105 && buf[11] == 108 && buf[12] == 101
                && buf[13] == 115 && buf[14] == 47 && buf[15] == 115 && buf[16] == 116
                && buf[17] == 111 && buf[18] == 112
        }),
        routed(buf, "POST /profiles/stop"@, false) ==> buf[19] == 32 || buf[19] == 13,
        begins(buf, "POST /profiles/stop"@) ==> routed(buf, "POST /profiles/stop"@, false) && (buf[19] == 32 || buf[19] == 13),
{
    let path = "POST /profiles/stop"@;
    assert(is_ascii_chars(path) && path.len() == 19) by {
        reveal_strlit("POST /profiles/stop");
    }
    path_bytes(buf, path, false);
    if routed(buf, path, false) || begins(buf, path) {
        assert(buf[0] == 80 && buf[1] == 79 && buf[2] == 83 && buf[3] == 84 && buf[4] == 32 && buf[5] == 47 && buf[6] == 112 && buf[7] == 114 && buf[8] == 111 && buf[9] == 102 && buf[10] == 105 && buf[11] == 108 && buf[12] == 101 && buf[13] == 115 && buf[14] == 47 && buf[15] == 115 && buf[16] == 116 && buf[17] == 111 && buf[18] == 112) by {
            reveal_strlit("POST /profiles/stop");
        }
    }
}

proof fn line_begins(line: Seq<char>, path: Seq<char>, after: Seq<u8>)
    requires
        is_ascii_chars(line),
        is_ascii_chars(path),
        path.len() < line.len(),
        line.take(path.len() as int) == path,
        line[path.len() as int] == ' ',
    ensures
        begins(encode_utf8(line) + after, path),
{
    is_ascii_chars_encode_utf8(line);
    is_ascii_chars_encode_utf8(path);
    let buf = encode_utf8(line) + after;
    let p = encode_utf8(path);
    assert forall|i: int| 0 <= i < p.len() implies #[trigger] buf.take(p.len() as int)[i] == p[i] by {
        assert(line.take(path.len() as int)[i] == path[i]);
        assert(buf[i] == line[i] as u8);
    }
    assert(buf.take(p.len() as int) == p);
    assert(buf[p.len() as int] == line[path.len() as int] as u8);
}

proof fn start_line_begins(after: Seq<u8>)
    ensures
        begins(
            encode_utf8("POST /collection/start HTTP/1.1"@) + after,
            "POST /collection/start"@,
        ),
{
    reveal_strlit("POST /collection/start");
    reveal_strlit("POST /collection/start HTTP/1.1");
    let line = "POST /collection/start HTTP/1.1"@;
    let path = "POST /collection/start"@;
    assert(line.take(22) =~= path);
    line_begins(line, path, after);
}

proof fn stop_line_begins(after: Seq<u8>)
    ensures
        begins(encode_utf8("POST /collection/stop HTTP/1.1"@) + after, "POST /collection/stop"@),
{
    reveal_strlit("POST /collection/stop");
    reveal_strlit("POST /collection/stop HTTP/1.1");
    let line = "POST /collection/stop HTTP/1.1"@;
    let path = "POST /collection/stop"@;
    assert(line.take(21) =~= path);
    line_begins(line, path, after);
}

/// A request for the root is one for the status.
pub proof fn the_root_is_the_status(buf: Seq<u8>, max_steps: nat)
    requires
        begins(buf, "GET /"@),
    ensures
        request_of(buf, max_steps) == Request::GetStatus,
{
    root_bytes(buf);
}

/// A request for `/status` is one for the status.
pub proof fn status_is_asked_for(buf: Seq<u8>, max_steps: nat)
    requires
        begins(buf, "GET /status"@),
    ensures
        request_of(buf, max_steps) == Request::GetStatus,
{
    root_bytes(buf);
    status_bytes(buf);
}

/// A request for `/sensors/scan` is one for the scan of the bus.
pub proof fn a_scan_is_asked_for(buf: Seq<u8>, max_steps: nat)
    requires
        begins(buf, "GET /sensors/scan"@),
    ensures
        request_of(buf, max_steps) == Request::GetSensorScan,
{
    root_bytes(buf);
    status_bytes(buf);
    history_bytes(buf);
    scan_bytes(buf);
}

/// A request for `/metrics` is one for the metrics.
pub proof fn metrics_are_asked_for(buf: Seq<u8>, max_steps: nat)
    requires
        begins(buf, "GET /metrics"@),
    ensures
        request_of(buf, max_steps) == Request::GetMetrics,
{
    root_bytes(buf);
    status_bytes(buf);
    history_bytes(buf);
    scan_bytes(buf);
    metrics_bytes(buf);
}

/// A request for `/config` is one for the feature flags.
pub proof fn flags_are_asked_for(buf: Seq<u8>, max_steps: nat)
    requires
        begins(buf, "GET /config"@),
    ensures
        request_of(buf, max_steps) == Request::GetConfig,
{
    root_bytes(buf);
    status_bytes(buf);
    history_bytes(buf);
    scan_bytes(buf);
    metrics_bytes(buf);
    flags_bytes(buf);
}

/// A post to `/collection/start` switches collection on.
pub proof fn a_start_switches_collection_on(buf: Seq<u8>, max_steps: nat)
    requires
        begins(buf, "POST /collection/start"@),
    ensures
        request_of(buf, max_steps) == Request::PostCollection(true),
{
    root_bytes(buf);
    status_bytes(buf);
    history_bytes(buf);
    scan_bytes(buf);
    metrics_bytes(buf);
    flags_bytes(buf);
    temperature_bytes(buf);
    probe_name_bytes(buf);
    start_bytes(buf);
}

/// A post to `/collection/stop` switches collection off.
pub proof fn a_stop_switches_collection_off(buf: Seq<u8>, max_steps: nat)
    requires
        begins(buf, "POST /collection/stop"@),
    ensures
        request_of(buf, max_steps) == Request::PostCollection(false),
{
    root_bytes(buf);
    status_bytes(buf);
    history_bytes(buf);
    scan_bytes(buf);
    metrics_bytes(buf);
    flags_bytes(buf);
    temperature_bytes(buf);
    probe_name_bytes(buf);
    start_bytes(buf);
    stop_bytes(buf);
}

/// A post to `/history/clear` clears the history.
pub proof fn clearing_is_asked_for(buf: Seq<u8>, max_steps: nat)
    requires
        begins(buf, "POST /history/clear"@),
    ensures
        request_of(buf, max_steps) == Request::PostHistoryClear,
{
    root_bytes(buf);
    status_bytes(buf);
    history_bytes(buf);
    scan_bytes(buf);
    metrics_bytes(buf);
    flags_bytes(buf);
    temperature_bytes(buf);
    probe_name_bytes(buf);
    start_bytes(buf);
    stop_bytes(buf);
    clear_bytes(buf);
}

/// A request for `/profiles` is one for all profiles.
pub proof fn profiles_are_asked_for(buf: Seq<u8>, max_steps: nat)
    requires
        begins(buf, "GET /profiles"@),
    ensures
        request_of(buf, max_steps) == Request::GetProfiles,
{
    root_bytes(buf);
    status_bytes(buf);
    history_bytes(buf);
    scan_bytes(buf);
    metrics_bytes(buf);
    flags_bytes(buf);
    temperature_bytes(buf);
    probe_name_bytes(buf);
    start_bytes(buf);
    stop_bytes(buf);
    clear_bytes(buf);
    config_bytes(buf);
    profiles_bytes(buf);
}

/// A request for `/profiles/active` is one for the running profile.
pub proof fn the_running_profile_is_asked_for(buf: Seq<u8>, max_steps: nat)
    requires
        begins(buf, "GET /profiles/active"@),
    ensures
        request_of(buf, max_steps) == Request::GetActiveProfile,
{
    root_bytes(buf);
    status_bytes(buf);
    history_bytes(buf);
    scan_bytes(buf);
    metrics_bytes(buf);
    flags_bytes(buf);
    temperature_bytes(buf);
    probe_name_bytes(buf);
    start_bytes(buf);
    stop_bytes(buf);
    clear_bytes(buf);
    config_bytes(buf);
    profiles_bytes(buf);
    active_bytes(buf);
}

/// A post to `/profiles/stop` stops the running profile.
pub proof fn a_stop_stops_the_profile(buf: Seq<u8>, max_steps: nat)
    requires
        begins(buf, "POST /profiles/stop"@),
    ensures
        request_of(buf, max_steps) == Request::StopProfile,
{
    root_bytes(buf);
    status_bytes(buf);
    history_bytes(buf);
    scan_bytes(buf);
    metrics_bytes(buf);
    flags_bytes(buf);
    temperature_bytes(buf);
    probe_name_bytes(buf);
    start_bytes(buf);
    stop_bytes(buf);
    clear_bytes(buf);
    config_bytes(buf);
    profiles_bytes(buf);
    active_bytes(buf);
    profile_stop_bytes(buf);
}

/// The request lines that start and stop collection, whatever follows them.
pub proof fn collection_is_switched_by_its_line(after: Seq<u8>, max_steps: nat)
    ensures
        request_of(encode_utf8("POST /collection/start HTTP/1.1"@) + after, max_steps)
            == Request::PostCollection(true),
        request_of(encode_utf8("POST /collection/stop HTTP/1.1"@) + after, max_steps)
            == Request::PostCollection(false),
{
    let start = encode_utf8("POST /collection/start HTTP/1.1"@) + after;
    let stop = encode_utf8("POST /collection/stop HTTP/1.1"@) + after;
    start_line_begins(after);
    stop_line_begins(after);
    a_start_switches_collection_on(start, max_steps);
    a_stop_switches_collection_off(stop, max_steps);
}

// ── Bodies ───────────────────────────────────────────────────────────────────

/// The empty line that ends the header of a request.
pub open spec fn header_end() -> Seq<u8> {
    seq![13u8, 10, 13, 10]
}

/// What follows a header of one line is the body, and it is read as text
/// without the white space around it.
pub proof fn the_body_follows_the_header(head: Seq<u8>, text: Seq<char>)
    requires
        !head.contains(13u8),
    ensures
        body_of(head + header_end() + encode_utf8(text)) == Some(encode_utf8(text)),
        text_body(head + header_end() + encode_utf8(text)) == Some(trim(text)),
{
    body_is_found(head, encode_utf8(text));
    encode_utf8_valid_utf8(text);
    encode_utf8_decode_utf8(text);
}

proof fn body_is_found(head: Seq<u8>, body: Seq<u8>)
    requires
        !head.contains(13u8),
    ensures
        body_of(head + header_end() + body) == Some(body),
{
    let buf = head + header_end() + body;
    let end = seq![13u8, 10, 13, 10];
    let n = head.len() as int;
    assert(buf.subrange(n, n + 4) =~= end);
    assert forall|i: int| 0 <= i < n implies #[trigger] buf[i] != end[0] by {
        assert(buf[i] == head[i]);
        assert(head.contains(head[i]));
    }
    find_from_at(buf, end, 0, n);
    assert(buf.skip(n + 4) =~= body);
}

/// White space before a text is dropped.
proof fn gap_is_dropped(gap: Seq<char>, value: Seq<char>)
    requires
        forall|i: int| 0 <= i < gap.len() ==> is_space(#[trigger] gap[i]),
        value.len() > 0 ==> !is_space(value[0]),
    ensures
        trim_start(gap + value) == value,
    decreases gap.len(),
{
    if gap.len() == 0 {
        assert(gap + value =~= value);
    } else {
        let rest = gap.drop_first();
        assert forall|i: int| 0 <= i < rest.len() implies is_space(#[trigger] rest[i]) by {
            assert(rest[i] == gap[i + 1]);
        }
        gap_is_dropped(rest, value);
        assert((gap + value)[0] == gap[0]);
        assert((gap + value).drop_first() =~= rest + value);
    }
}

/// What stands before a field that is asked for: no quote in it starts the
/// field's key.
pub open spec fn leads_to(before: Seq<char>, key: Seq<char>) -> bool {
    &&& key.len() > 0
    &&& forall|i: int|
        0 <= i < before.len() && #[trigger] before[i] == '"' ==> i + 1 < before.len() && before[i + 1]
            != key[0]
}

/// The value of a field is what follows its key in quotes, a colon and white
/// space.
pub proof fn a_field_is_read(before: Seq<char>, key: Seq<char>, gap: Seq<char>, value: Seq<char>)
    requires
        leads_to(before, key),
        forall|i: int| 0 <= i < gap.len() ==> is_space(#[trigger] gap[i]),
        value.len() > 0 ==> !is_space(value[0]),
    ensures
        field_value(before + seq!['"'] + key + seq!['"', ':'] + gap + value, key) == Some(value),
{
    let body = before + seq!['"'] + key + seq!['"', ':'] + gap + value;
    let needle = seq!['"'] + key + seq!['"'];
    let n = before.len() as int;
    assert(quoted_key(key) =~= needle);
    assert(body.subrange(n, n + needle.len()) =~= needle);
    assert(body.take(n) =~= before);
    key_is_found(body, before, key, 0);
    let after = body.skip(n + needle.len());
    assert(after =~= seq![':'] + gap + value);
    let colon = seq![':'];
    assert(colon[0] == ':');
    assert(after[0] == ':');
    first_in_at(after, colon, 0, 0);
    assert(after.skip(1) =~= gap + value);
    gap_is_dropped(gap, value);
}

proof fn key_is_found(body: Seq<char>, before: Seq<char>, key: Seq<char>, from: int)
    requires
        leads_to(before, key),
        0 <= from <= before.len(),
        before.len() + key.len() + 2 <= body.len(),
        body.take(before.len() as int) == before,
        body.subrange(before.len() as int, (before.len() + key.len() + 2) as int) == seq!['"'] + key + seq![
            '"',
        ],
    ensures
        find_from(body, seq!['"'] + key + seq!['"'], from) == Some(before.len() as int),
    decreases before.len() - from,
{
    let needle = seq!['"'] + key + seq!['"'];
    if from < before.len() {
        let here = body.subrange(from, from + needle.len());
        if here == needle {
            assert(here[0] == body[from] && body[from] == body.take(before.len() as int)[from]);
            assert(needle[0] == '"');
            assert(before[from] == '"');
            assert(here[1] == body[from + 1] && body[from + 1] == body.take(
                before.len() as int,
            )[from + 1]);
            assert(needle[1] == key[0]);
        }
        key_is_found(body, before, key, from + 1);
    }
}

/// A flag is read as what it says, and a text as what stands between its
/// quotes.
pub proof fn flags_and_texts_are_read(
    before: Seq<char>,
    key: Seq<char>,
    gap: Seq<char>,
    text: Seq<char>,
    rest: Seq<char>,
)
    requires
        leads_to(before, key),
        forall|i: int| 0 <= i < gap.len() ==> is_space(#[trigger] gap[i]),
        !text.contains('"'),
    ensures
        bool_field(before + seq!['"'] + key + seq!['"', ':'] + gap + ("true"@ + rest), key) == Some(
            true,
        ),
        bool_field(before + seq!['"'] + key + seq!['"', ':'] + gap + ("false"@ + rest), key)
            == Some(false),
        string_field(
            before + seq!['"'] + key + seq!['"', ':'] + gap + (seq!['"'] + text + seq!['"'] + rest),
            key,
        ) == Some(text),
{
    reveal_strlit("true");
    reveal_strlit("false");
    let yes = "true"@ + rest;
    let no = "false"@ + rest;
    let quoted = seq!['"'] + text + seq!['"'] + rest;
    a_field_is_read(before, key, gap, yes);
    a_field_is_read(before, key, gap, no);
    a_field_is_read(before, key, gap, quoted);
    assert(yes.take(4) =~= "true"@);
    assert(no.take(5) =~= "false"@);
    assert(!starts_with(no, "true"@)) by {
        assert(no.take(4)[0] == 'f');
    }
    let inner = quoted.skip(1);
    let quote = seq!['"'];
    assert(quote[0] == '"');
    assert forall|i: int| 0 <= i < text.len() implies !quote.contains(#[trigger] inner[i]) by {
        assert(inner[i] == text[i]);
        assert(text.contains(text[i]));
    }
    assert(inner[text.len() as int] == '"');
    first_in_at(inner, quote, 0, text.len() as int);
    assert(inner.take(text.len() as int) =~= text);
}

/// A number is read from its field, and any bare value as its text, up to a
/// comma, a brace or a blank.
pub proof fn numbers_are_read(
    before: Seq<char>,
    key: Seq<char>,
    gap: Seq<char>,
    token: Seq<char>,
    end: char,
    rest: Seq<char>,
)
    requires
        leads_to(before, key),
        forall|i: int| 0 <= i < gap.len() ==> is_space(#[trigger] gap[i]),
        token.len() > 0,
        !is_space(token[0]),
        end == ',' || end == '}' || end == ' ' || end == '\t' || end == '\r' || end == '\n',
        forall|i: int|
            #![trigger token[i]]
            0 <= i < token.len() ==> token[i] != ',' && token[i] != '}' && token[i] != ' '
                && token[i] != '\t' && token[i] != '\r' && token[i] != '\n',
    ensures
        bare_value(before + seq!['"'] + key + seq!['"', ':'] + gap + (token + seq![end] + rest), key)
            == Some(token),
        forall|n: nat|
            n <= u32::MAX && token == #[trigger] decimal(n) ==> u32_field(
                before + seq!['"'] + key + seq!['"', ':'] + gap + (token + seq![end] + rest),
                key,
            ) == Some(n),
{
    let value = token + seq![end] + rest;
    a_field_is_read(before, key, gap, value);
    let ends = value_end();
    assert(ends[0] == ',' && ends[1] == '}' && ends[2] == ' ' && ends[3] == '\t' && ends[4] == '\r'
        && ends[5] == '\n');
    assert(value[token.len() as int] == end);
    assert forall|i: int| 0 <= i < token.len() implies !ends.contains(#[trigger] value[i]) by {
        assert(value[i] == token[i]);
    }
    first_in_at(value, ends, 0, token.len() as int);
    assert(value.take(token.len() as int) =~= token);
    assert forall|n: nat| n <= u32::MAX && token == #[trigger] decimal(n) implies read_unsigned(
        token,
        u32::MAX as nat,
    ) == Some(n) by {
        decimal_read_back(n, u32::MAX as nat);
    }
}

/// A step of a profile is what its object says: the text of the target and the
/// seconds of the hold, where there are any.
pub proof fn a_step_is_read(target: Seq<char>, hold: nat)
    requires
        hold <= u32::MAX,
        target.len() > 0,
        forall|i: int|
            #![trigger target[i]]
            0 <= i < target.len() ==> target[i] != ',' && target[i] != '}' && !is_space(target[i])
                && target[i] != '"',
    ensures
        step_in("\"target_c\":"@ + target + ",\"hold_secs\":"@ + decimal(hold) + " "@) == (if hold
            > 0 {
            Some((target, hold as u32))
        } else {
            None
        }),
{
    reveal_strlit("\"target_c\":");
    reveal_strlit(",\"hold_secs\":");
    reveal_strlit(" ");
    reveal_strlit("target_c");
    reveal_strlit("hold_secs");
    decimal_read_back(hold, u32::MAX as nat);
    let none = Seq::<char>::empty();
    let d = decimal(hold);
    let object = "\"target_c\":"@ + target + ",\"hold_secs\":"@ + d + " "@;
    let rest = "\"hold_secs\":"@ + d + " "@;
    reveal_strlit("\"hold_secs\":");
    numbers_are_read(none, "target_c"@, none, target, ',', rest);
    assert(none + seq!['"'] + "target_c"@ + seq!['"', ':'] + none + (target + seq![','] + rest)
        =~= object);
    let before = "\"target_c\":"@ + target + seq![','];
    assert forall|i: int| 0 <= i < before.len() && #[trigger] before[i] == '"' implies i + 1
        < before.len() && before[i + 1] != 'h' by {
        if 11 <= i < 11 + target.len() {
            assert(before[i] == target[i - 11]);
        }
    }
    assert("hold_secs"@[0] == 'h');
    assert forall|i: int| #![trigger d[i]] 0 <= i < d.len() implies d[i] != ',' && d[i] != '}'
        && d[i] != ' ' && d[i] != '\t' && d[i] != '\r' && d[i] != '\n' && !is_space(d[i]) by {
        assert(is_digit(d[i]));
    }
    numbers_are_read(before, "hold_secs"@, none, d, ' ', none);
    assert(before + seq!['"'] + "hold_secs"@ + seq!['"', ':'] + none + (d + seq![' '] + none)
        =~= object);
}

/// Feature flags that are posted are set as they are given.
pub proof fn posted_flags_are_read(head: Seq<u8>, http: bool, prometheus: bool, max_steps: nat)
    requires
        !head.contains(13u8),
        begins(head, "POST /config"@),
    ensures
        request_of(
            head + header_end() + encode_utf8(
                "{\"http_server\":"@ + bool_text(http) + ",\"prometheus\":"@ + bool_text(prometheus)
                    + "}"@,
            ),
            max_steps,
        ) == (Request::PostConfig { http, prometheus }),
{
    let text = "{\"http_server\":"@ + bool_text(http) + ",\"prometheus\":"@ + bool_text(prometheus)
        + "}"@;
    let buf = head + header_end() + encode_utf8(text);
    assert(begins(buf, "POST /config"@)) by {
        begins_further(head, header_end() + encode_utf8(text), "POST /config"@);
        assert(head + (header_end() + encode_utf8(text)) =~= buf);
    }
    the_body_follows_the_header(head, text);
    flags_text(http, prometheus);
    a_post_of_flags_is_one(buf, max_steps);
}

proof fn begins_further(head: Seq<u8>, after: Seq<u8>, line: Seq<char>)
    requires
        begins(head, line),
    ensures
        begins(head + after, line),
{
    let p = encode_utf8(line);
    assert((head + after).take(p.len() as int) =~= head.take(p.len() as int));
}

proof fn flags_text(http: bool, prometheus: bool)
    ensures
        ({
            let text = "{\"http_server\":"@ + bool_text(http) + ",\"prometheus\":"@ + bool_text(
                prometheus,
            ) + "}"@;
            &&& trim(text) == text
            &&& bool_field(text, "http_server"@) == Some(http)
            &&& bool_field(text, "prometheus"@) == Some(prometheus)
        }),
{
    let text = "{\"http_server\":"@ + bool_text(http) + ",\"prometheus\":"@ + bool_text(prometheus)
        + "}"@;
    let none = Seq::<char>::empty();
    let open = seq!['{'];
    reveal_strlit("{\"http_server\":");
    reveal_strlit("http_server");
    reveal_strlit(",\"prometheus\":");
    reveal_strlit("prometheus");
    reveal_strlit("}");
    reveal_strlit("true");
    reveal_strlit("false");
    let rest = ",\"prometheus\":"@ + bool_text(prometheus) + "}"@;
    flags_and_texts_are_read(open, "http_server"@, none, none, rest);
    assert(open + seq!['"'] + "http_server"@ + seq!['"', ':'] + none + (bool_text(http) + rest)
        =~= text);
    let before = "{\"http_server\":"@ + bool_text(http) + seq![','];
    assert(leads_to(before, "prometheus"@)) by {
        assert forall|i: int| 0 <= i < before.len() && #[trigger] before[i] == '"' implies i + 1
            < before.len() && before[i + 1] != 'p' by {}
    }
    flags_and_texts_are_read(before, "prometheus"@, none, none, "}"@);
    assert(before + seq!['"'] + "prometheus"@ + seq!['"', ':'] + none + (bool_text(prometheus)
        + "}"@) =~= text);
    assert(text[0] == '{' && text.last() == '}');
    trim_of_trimmed(text);
}

proof fn a_post_of_flags_is_one(buf: Seq<u8>, max_steps: nat)
    requires
        begins(buf, "POST /config"@),
    ensures
        request_of(buf, max_steps) == (match config_body(buf) {
            Some(flags) => Request::PostConfig { http: flags.0, prometheus: flags.1 },
            None => Request::BadRequest,
        }),
{
    root_bytes(buf);
    status_bytes(buf);
    history_bytes(buf);
    scan_bytes(buf);
    metrics_bytes(buf);
    flags_bytes(buf);
    temperature_bytes(buf);
    probe_name_bytes(buf);
    start_bytes(buf);
    stop_bytes(buf);
    clear_bytes(buf);
    config_bytes(buf);
}

/// A probe name that is posted under its key is read as it is given.
pub proof fn a_posted_probe_name_is_read(head: Seq<u8>, name: Seq<char>, max_steps: nat)
    requires
        !head.contains(13u8),
        begins(head, "POST /probe-name"@),
        !name.contains('"'),
    ensures
        request_of(
            head + header_end() + encode_utf8("{\"probe_name\":\""@ + name + "\"}"@),
            max_steps,
        ) == Request::PostProbeName(name),
{
    let text = "{\"probe_name\":\""@ + name + "\"}"@;
    let buf = head + header_end() + encode_utf8(text);
    assert(begins(buf, "POST /probe-name"@)) by {
        begins_further(head, header_end() + encode_utf8(text), "POST /probe-name"@);
        assert(head + (header_end() + encode_utf8(text)) =~= buf);
    }
    the_body_follows_the_header(head, text);
    probe_name_text(name);
    a_post_of_a_name_is_one(buf, max_steps);
}

proof fn probe_name_text(name: Seq<char>)
    requires
        !name.contains('"'),
    ensures
        ({
            let text = "{\"probe_name\":\""@ + name + "\"}"@;
            &&& trim(text) == text
            &&& text.len() > 0 && text[0] == '{'
            &&& string_field(text, "probe_name"@) == Some(name)
        }),
{
    let text = "{\"probe_name\":\""@ + name + "\"}"@;
    let none = Seq::<char>::empty();
    let open = seq!['{'];
    reveal_strlit("{\"probe_name\":\"");
    reveal_strlit("probe_name");
    reveal_strlit("\"}");
    flags_and_texts_are_read(open, "probe_name"@, none, name, seq!['}']);
    assert(open + seq!['"'] + "probe_name"@ + seq!['"', ':'] + none + (seq!['"'] + name + seq!['"']
        + seq!['}']) =~= text);
    assert(text[0] == '{' && text.last() == '}');
    trim_of_trimmed(text);
}

proof fn a_post_of_a_name_is_one(buf: Seq<u8>, max_steps: nat)
    requires
        begins(buf, "POST /probe-name"@),
    ensures
        request_of(buf, max_steps) == (match probe_name_body(buf) {
            Some(name) => Request::PostProbeName(name),
            None => Request::BadRequest,
        }),
{
    root_bytes(buf);
    status_bytes(buf);
    history_bytes(buf);
    scan_bytes(buf);
    metrics_bytes(buf);
    flags_bytes(buf);
    temperature_bytes(buf);
    probe_name_bytes(buf);
}

/// A temperature that is posted under its key is read as its text.
pub proof fn a_posted_temperature_is_read(head: Seq<u8>, text: Seq<char>, max_steps: nat)
    requires
        !head.contains(13u8),
        begins(head, "POST /temperature"@),
        is_ascii_chars(text),
        text.len() > 0,
        forall|i: int|
            #![trigger text[i]]
            0 <= i < text.len() ==> text[i] != ',' && text[i] != '}' && text[i] != ' ' && text[i]
                != '\t' && text[i] != '\r' && text[i] != '\n',
    ensures
        request_of(
            head + header_end() + (encode_utf8("{\"temperature_c\": "@) + encode_utf8(text) + seq![
                125u8,
            ]),
            max_steps,
        ) == Request::PostTemperature(text),
{
    let body = encode_utf8("{\"temperature_c\": "@) + encode_utf8(text) + seq![125u8];
    let buf = head + header_end() + body;
    assert(begins(buf, "POST /temperature"@)) by {
        begins_further(head, header_end() + body, "POST /temperature"@);
        assert(head + (header_end() + body) =~= buf);
    }
    body_is_found(head, body);
    temperature_in_body(buf, text);
    a_post_of_a_temperature_is_one(buf, max_steps);
}

proof fn temperature_in_body(buf: Seq<u8>, text: Seq<char>)
    requires
        body_of(buf) == Some(
            encode_utf8("{\"temperature_c\": "@) + encode_utf8(text) + seq![125u8],
        ),
        is_ascii_chars(text),
        text.len() > 0,
        forall|i: int|
            #![trigger text[i]]
            0 <= i < text.len() ==> text[i] != ',' && text[i] != '}' && text[i] != ' ' && text[i]
                != '\t' && text[i] != '\r' && text[i] != '\n',
    ensures
        temperature_text(buf) == Some(text),
{
    let lead = encode_utf8("{\"temperature_c\": "@);
    let key = encode_utf8("temperature_c"@);
    let value = encode_utf8(text);
    let body = lead + value + seq![125u8];
    assert(lead.len() == 18 && lead[0] == 123 && lead[1] == 34 && lead[15] == 34 && lead[16] == 58
        && lead[17] == 32 && key.len() == 13 && key[0] == 116 && lead.subrange(2, 15) =~= key) by {
        temperature_key();
    }
    is_ascii_chars_encode_utf8(text);
    assert(body.subrange(2, 15) =~= lead.subrange(2, 15));
    find_from_at(body, key, 0, 2);
    let after = body.skip(15);
    let colon = seq![58u8];
    assert(colon[0] == 58);
    assert(after[0] == 34 && after[1] == 58);
    assert(!colon.contains(34u8));
    first_in_at(after, colon, 0, 1);
    let rest = after.skip(2);
    assert(rest =~= seq![32u8] + value + seq![125u8]);
    let blanks = seq![32u8, 9];
    assert(blanks[0] == 32);
    assert(rest[1] == value[0] && value[0] == text[0] as u8);
    assert(!blanks.contains(rest[1]));
    assert(blanks.contains(rest[0]));
    assert(first_not_in(rest, blanks, 1) == 1);
    assert(first_not_in(rest, blanks, 0) == 1);
    let v = rest.skip(1);
    assert(v =~= value + seq![125u8]);
    let ends = seq![44u8, 125, 32, 9, 13, 10];
    assert(ends[1] == 125);
    assert forall|i: int| 0 <= i < value.len() implies !ends.contains(#[trigger] v[i]) by {
        assert(v[i] == value[i] && value[i] == text[i] as u8);
    }
    assert(v[value.len() as int] == 125);
    first_in_at(v, ends, 0, value.len() as int);
    assert(v.take(value.len() as int) =~= value);
    encode_utf8_valid_utf8(text);
    encode_utf8_decode_utf8(text);
}

proof fn temperature_key()
    ensures
        ({
            let lead = encode_utf8("{\"temperature_c\": "@);
            let key = encode_utf8("temperature_c"@);
            &&& lead.len() == 18 && lead[0] == 123 && lead[1] == 34 && lead[15] == 34
            &&& lead[16] == 58 && lead[17] == 32
            &&& key.len() == 13 && key[0] == 116
            &&& lead.subrange(2, 15) =~= key
        }),
{
    reveal_strlit("{\"temperature_c\": ");
    reveal_strlit("temperature_c");
    let a = "{\"temperature_c\": "@;
    let b = "temperature_c"@;
    is_ascii_chars_encode_utf8(a);
    is_ascii_chars_encode_utf8(b);
    assert(a.subrange(2, 15) =~= b);
    assert forall|i: int| 0 <= i < 13 implies #[trigger] encode_utf8(a).subrange(2, 15)[i]
        == encode_utf8(b)[i] by {
        assert(a.subrange(2, 15)[i] == b[i]);
        assert(encode_utf8(a)[i + 2] == a[i + 2] as u8 && encode_utf8(b)[i] == b[i] as u8);
    }
    assert(encode_utf8(a)[0] == a[0] as u8 && encode_utf8(a)[1] == a[1] as u8 && encode_utf8(a)[15]
        == a[15] as u8 && encode_utf8(a)[16] == a[16] as u8 && encode_utf8(a)[17] == a[17] as u8
        && encode_utf8(b)[0] == b[0] as u8);
}

proof fn a_post_of_a_temperature_is_one(buf: Seq<u8>, max_steps: nat)
    requires
        begins(buf, "POST /temperature"@),
    ensures
        request_of(buf, max_steps) == (match temperature_text(buf) {
            Some(text) => Request::PostTemperature(text),
            None => Request::BadRequest,
        }),
{
    root_bytes(buf);
    status_bytes(buf);
    history_bytes(buf);
    scan_bytes(buf);
    metrics_bytes(buf);
    flags_bytes(buf);
    temperature_bytes(buf);
}

// ── Profiles by name ─────────────────────────────────────────────────────────

/// Whether a text can stand in a path as the name of a profile: it holds none
/// of the characters that end a name, and no white space at its ends.
pub open spec fn is_path_name(name: Seq<char>) -> bool {
    &&& name.len() > 0
    &&& is_ascii_chars(name)
    &&& !is_space(name[0]) && !is_space(name.last())
    &&& forall|i: int|
        #![trigger name[i]]
        0 <= i < name.len() ==> name[i] != '/' && name[i] != ' ' && name[i] != '?' && name[i]
            != '\r' && name[i] != '\n'
}

proof fn name_in_path(prefix: Seq<u8>, name: Seq<char>, after: Seq<u8>)
    requires
        is_path_name(name),
        after.len() > 0,
        after[0] == 32 || after[0] == 47 || after[0] == 63 || after[0] == 13,
    ensures
        url_name(prefix + encode_utf8(name) + after, prefix) == Some(name),
{
    let n = encode_utf8(name);
    let buf = prefix + n + after;
    is_ascii_chars_encode_utf8(name);
    encode_utf8_valid_utf8(name);
    encode_utf8_decode_utf8(name);
    trim_of_trimmed(name);
    assert(buf.take(prefix.len() as int) =~= prefix);
    let rest = buf.skip(prefix.len() as int);
    assert(rest =~= n + after);
    let ends = seq![47u8, 32, 63, 13, 10];
    assert(ends[0] == 47 && ends[1] == 32 && ends[2] == 63 && ends[3] == 13);
    assert forall|i: int| 0 <= i < n.len() implies !ends.contains(#[trigger] rest[i]) by {
        assert(rest[i] == n[i] && n[i] == name[i] as u8);
    }
    assert(rest[n.len() as int] == after[0]);
    first_in_at(rest, ends, 0, n.len() as int);
    assert(rest.take(n.len() as int) =~= n);
}

proof fn prefix_bytes(buf: Seq<u8>, prefix: Seq<char>, rest: Seq<u8>)
    requires
        is_ascii_chars(prefix),
        buf == encode_utf8(prefix) + rest,
    ensures
        buf.len() == prefix.len() + rest.len(),
        forall|i: int| 0 <= i < prefix.len() ==> #[trigger] buf[i] == prefix[i] as u8,
        forall|i: int|
            prefix.len() <= i < buf.len() ==> #[trigger] buf[i] == rest[i - prefix.len()],
        starts_with(buf, encode_utf8(prefix)),
{
    is_ascii_chars_encode_utf8(prefix);
    assert(buf.take(encode_utf8(prefix).len() as int) =~= encode_utf8(prefix));
}

proof fn delete_prefix(buf: Seq<u8>, rest: Seq<u8>)
    requires
        buf == encode_utf8("DELETE /profiles/"@) + rest,
    ensures
        buf.len() > 0 && buf[0] == 68,
        starts_with(buf, encode_utf8("DELETE /profiles/"@)),
{
    assert(is_ascii_chars("DELETE /profiles/"@) && "DELETE /profiles/"@.len() == 17
        && "DELETE /profiles/"@[0] == 'D') by {
        reveal_strlit("DELETE /profiles/");
    }
    prefix_bytes(buf, "DELETE /profiles/"@, rest);
}

proof fn get_prefix(buf: Seq<u8>, rest: Seq<u8>)
    requires
        buf == encode_utf8("GET /profiles/"@) + rest,
    ensures
        buf.len() == 14 + rest.len(),
        buf[0] == 71 && buf[5] == 112 && buf[13] == 47,
        forall|i: int| 14 <= i < buf.len() ==> #[trigger] buf[i] == rest[i - 14],
        starts_with(buf, encode_utf8("GET /profiles/"@)),
{
    assert(is_ascii_chars("GET /profiles/"@) && "GET /profiles/"@.len() == 14
        && "GET /profiles/"@[0] == 'G' && "GET /profiles/"@[5] == 'p' && "GET /profiles/"@[13]
        == '/') by {
        reveal_strlit("GET /profiles/");
    }
    prefix_bytes(buf, "GET /profiles/"@, rest);
}

proof fn post_prefix(buf: Seq<u8>, rest: Seq<u8>)
    requires
        buf == encode_utf8("POST /profiles/"@) + rest,
    ensures
        buf.len() == 15 + rest.len(),
        buf[0] == 80 && buf[6] == 112 && buf[8] == 111 && buf[9] == 102,
        forall|i: int| 15 <= i < buf.len() ==> #[trigger] buf[i] == rest[i - 15],
        starts_with(buf, encode_utf8("POST /profiles/"@)),
        encode_utf8("POST /profiles/"@).len() == 15,
{
    assert(is_ascii_chars("POST /profiles/"@) && "POST /profiles/"@.len() == 15
        && "POST /profiles/"@[0] == 'P' && "POST /profiles/"@[6] == 'p' && "POST /profiles/"@[8]
        == 'o' && "POST /profiles/"@[9] == 'f') by {
        reveal_strlit("POST /profiles/");
    }
    is_ascii_chars_encode_utf8("POST /profiles/"@);
    prefix_bytes(buf, "POST /profiles/"@, rest);
}

proof fn starts_as(buf: Seq<u8>, prefix: Seq<char>, first: u8)
    requires
        is_ascii_chars(prefix),
        prefix.len() > 0,
        prefix[0] as u8 == first,
        starts_with(buf, encode_utf8(prefix)),
    ensures
        buf.len() > 0,
        buf[0] == first,
{
    is_ascii_chars_encode_utf8(prefix);
    assert(buf[0] == buf.take(encode_utf8(prefix).len() as int)[0]);
}

proof fn not_get_or_post(buf: Seq<u8>)
    ensures
        starts_with(buf, encode_utf8("GET /profiles/"@)) ==> buf.len() > 0 && buf[0] == 71,
        starts_with(buf, encode_utf8("POST /profiles/"@)) ==> buf.len() > 0 && buf[0] == 80,
{
    assert(is_ascii_chars("GET /profiles/"@) && "GET /profiles/"@.len() == 14
        && "GET /profiles/"@[0] == 'G') by {
        reveal_strlit("GET /profiles/");
    }
    assert(is_ascii_chars("POST /profiles/"@) && "POST /profiles/"@.len() == 15
        && "POST /profiles/"@[0] == 'P') by {
        reveal_strlit("POST /profiles/");
    }
    if starts_with(buf, encode_utf8("GET /profiles/"@)) {
        starts_as(buf, "GET /profiles/"@, 71);
    }
    if starts_with(buf, encode_utf8("POST /profiles/"@)) {
        starts_as(buf, "POST /profiles/"@, 80);
    }
}

proof fn all_fixed_paths(buf: Seq<u8>)
    ensures
        routed(buf, "GET /"@, true) || routed(buf, "GET /status"@, true) || routed(
            buf,
            "GET /history"@,
            true,
        ) || routed(buf, "GET /sensors/scan"@, true) || routed(buf, "GET /metrics"@, true)
            || routed(buf, "GET /config"@, false) ==> buf.len() > 5 && buf[0] == 71 && buf[5] != 112,
        routed(buf, "POST /temperature"@, false) || routed(buf, "POST /collection/start"@, false)
            || routed(buf, "POST /collection/stop"@, false) || routed(
            buf,
            "POST /history/clear"@,
            false,
        ) || routed(buf, "POST /config"@, false) ==> buf.len() > 6 && buf[0] == 80 && buf[6] != 112,
        routed(buf, "POST /probe-name"@, false) ==> buf.len() > 9 && buf[0] == 80 && buf[9] == 98,
{
    root_bytes(buf);
    status_bytes(buf);
    history_bytes(buf);
    scan_bytes(buf);
    metrics_bytes(buf);
    flags_bytes(buf);
    temperature_bytes(buf);
    probe_name_bytes(buf);
    start_bytes(buf);
    stop_bytes(buf);
    clear_bytes(buf);
    config_bytes(buf);
}

/// A `DELETE` of a profile is one of the profile with the name in its path.
pub proof fn a_deleted_profile_is_named(name: Seq<char>, after: Seq<u8>, max_steps: nat)
    requires
        is_path_name(name),
        after.len() > 0,
        after[0] == 32 || after[0] == 13,
    ensures
        request_of(encode_utf8("DELETE /profiles/"@) + encode_utf8(name) + after, max_steps)
            == Request::DeleteProfile(name),
{
    let prefix = encode_utf8("DELETE /profiles/"@);
    let buf = prefix + encode_utf8(name) + after;
    assert(buf =~= prefix + (encode_utf8(name) + after));
    delete_prefix(buf, encode_utf8(name) + after);
    name_in_path(prefix, name, after);
    all_fixed_paths(buf);
    profiles_bytes(buf);
    active_bytes(buf);
    profile_stop_bytes(buf);
    not_get_or_post(buf);
}

/// A `GET` of a profile is one of the profile with the name in its path, unless
/// the name is the one that stands for the running profile.
pub proof fn a_wanted_profile_is_named(name: Seq<char>, after: Seq<u8>, max_steps: nat)
    requires
        is_path_name(name),
        name != "active"@,
        after.len() > 0,
        after[0] == 32 || after[0] == 13,
    ensures
        request_of(encode_utf8("GET /profiles/"@) + encode_utf8(name) + after, max_steps)
            == Request::GetProfile(name),
{
    let prefix = encode_utf8("GET /profiles/"@);
    let buf = prefix + encode_utf8(name) + after;
    assert(buf =~= prefix + (encode_utf8(name) + after));
    get_prefix(buf, encode_utf8(name) + after);
    name_in_path(prefix, name, after);
    all_fixed_paths(buf);
    profiles_bytes(buf);
    active_bytes(buf);
    profile_stop_bytes(buf);
    not_get_or_post(buf);
    if routed(buf, "GET /profiles/active"@, false) {
        is_ascii_chars_encode_utf8(name);
        let n = encode_utf8(name);
        assert(forall|i: int| 0 <= i < n.len() ==> buf[14 + i] == #[trigger] n[i]);
        assert(buf[14 + n.len() as int] == after[0]);
        if n.len() > 6 {
            assert(buf[20] == n[6] && n[6] == name[6] as u8);
        } else if n.len() == 6 {
            assert(buf[14] == n[0] && buf[15] == n[1] && buf[16] == n[2] && buf[17] == n[3]
                && buf[18] == n[4] && buf[19] == n[5]);
            assert(n[0] == name[0] as u8 && n[1] == name[1] as u8 && n[2] == name[2] as u8 && n[3]
                == name[3] as u8 && n[4] == name[4] as u8 && n[5] == name[5] as u8);
            assert(name =~= "active"@) by {
                reveal_strlit("active");
            }
        }
    }
}

/// A profile is started by a post to its name.
pub proof fn a_started_profile_is_named(name: Seq<char>, after: Seq<u8>, max_steps: nat)
    requires
        is_path_name(name),
    ensures
        request_of(
            encode_utf8("POST /profiles/"@) + encode_utf8(name) + encode_utf8("/start "@) + after,
            max_steps,
        ) == Request::StartProfile(name),
{
    let prefix = encode_utf8("POST /profiles/"@);
    let suffix = encode_utf8("/start "@);
    let n = encode_utf8(name);
    let buf = prefix + n + suffix + after;
    let rest = n + suffix + after;
    assert(buf =~= prefix + rest);
    post_prefix(buf, rest);
    all_fixed_paths(buf);
    profiles_bytes(buf);
    active_bytes(buf);
    profile_stop_bytes(buf);
    not_get_or_post(buf);
    assert(suffix.len() == 7 && suffix[0] == 47) by {
        reveal_strlit("/start ");
        is_ascii_chars_encode_utf8("/start "@);
    }
    is_ascii_chars_encode_utf8(name);
    encode_utf8_valid_utf8(name);
    encode_utf8_decode_utf8(name);
    trim_of_trimmed(name);
    assert(buf.skip(15) =~= rest);
    assert(rest.subrange(n.len() as int, n.len() as int + 7) =~= suffix);
    assert forall|i: int| 0 <= i < n.len() implies #[trigger] rest[i] != suffix[0] by {
        assert(rest[i] == n[i] && n[i] == name[i] as u8);
    }
    find_from_at(rest, suffix, 0, n.len() as int);
    assert(rest.take(n.len() as int) =~= n);
    if routed(buf, "POST /profiles/stop"@, false) {
        assert(forall|i: int| 0 <= i < n.len() ==> buf[15 + i] == #[trigger] n[i]);
        assert(buf[15 + n.len() as int] == 47);
        if n.len() > 4 {
            assert(buf[19] == n[4] && n[4] == name[4] as u8);
        }
    }
}

/// The steps of a list are read one after the other: white space and commas
/// before a step are passed over, what stands between braces is a step, the
/// bracket ends the list, and a list with a step too many, with something else
/// in it or without an end is not read.
#[verifier::rlimit(40)]
pub proof fn listed_steps_are_read_in_turn(
    gap: Seq<char>,
    object: Seq<char>,
    tail: Seq<char>,
    done: Seq<(Seq<char>, u32)>,
    max: nat,
)
    requires
        forall|i: int| 0 <= i < gap.len() ==> is_space(#[trigger] gap[i]),
        !object.contains('}'),
    ensures
        steps_after(gap + seq![']'] + tail, done, max) == Some(done),
        steps_after(gap + seq![','] + tail, done, max) == steps_after(tail, done, max),
        steps_after(gap, done, max) is None,
        step_in(object) is Some && done.len() < max ==> steps_after(
            gap + (seq!['{'] + object + seq!['}'] + tail),
            done,
            max,
        ) == steps_after(tail, done.push(step_in(object)->0), max),
        step_in(object) is None || done.len() >= max ==> steps_after(
            gap + (seq!['{'] + object + seq!['}'] + tail),
            done,
            max,
        ) is None,
{
    let bracket = seq![']'] + tail;
    assert(bracket[0] == ']');
    gap_is_dropped(gap, bracket);
    assert(gap + bracket == gap + seq![']'] + tail);
    let comma = seq![','] + tail;
    assert(comma[0] == ',');
    gap_is_dropped(gap, comma);
    assert(gap + comma == gap + seq![','] + tail);
    assert(comma.skip(1) == tail);
    only_a_gap(gap);
    let c = seq!['{'] + object + seq!['}'] + tail;
    assert(c[0] == '{');
    gap_is_dropped(gap, c);
    let mark = seq!['}'];
    let n = object.len() as int;
    assert(mark[0] == '}');
    assert(c[n + 1] == '}');
    assert forall|i: int| 1 <= i < n + 1 implies !mark.contains(#[trigger] c[i]) by {
        assert(c[i] == object[i - 1]);
        assert(object.contains(object[i - 1]));
    }
    first_in_at(c, mark, 1, n + 1);
    assert(c.subrange(1, n + 1) == object);
    assert(c.skip(n + 2) == tail);
}

proof fn only_a_gap(gap: Seq<char>)
    requires
        forall|i: int| 0 <= i < gap.len() ==> is_space(#[trigger] gap[i]),
    ensures
        trim_start(gap).len() == 0,
    decreases gap.len(),
{
    if gap.len() > 0 {
        let rest = gap.drop_first();
        assert forall|i: int| 0 <= i < rest.len() implies is_space(#[trigger] rest[i]) by {
            assert(rest[i] == gap[i + 1]);
        }
        assert(is_space(gap[0]));
        only_a_gap(rest);
    }
}

/// The steps of a profile are the list under `steps`, which may not be empty.
pub proof fn steps_are_listed_under_their_name(list: Seq<char>, max: nat)
    ensures
        profile_steps("{\"steps\":["@ + list, max) == (match steps_after(list, Seq::empty(), max) {
            Some(steps) => if steps.len() > 0 {
                Some(steps)
            } else {
                None
            },
            None => None,
        }),
{
    let body = "{\"steps\":["@ + list;
    let none = Seq::<char>::empty();
    let value = seq!['['] + list;
    reveal_strlit("{\"steps\":[");
    reveal_strlit("steps");
    assert(value[0] == '[');
    a_field_is_read(seq!['{'], "steps"@, none, value);
    assert(seq!['{'] + seq!['"'] + "steps"@ + seq!['"', ':'] + none + value =~= body);
    assert(value.skip(1) == list);
}

/// A post to the name of a profile gives it the steps that its body lists; it
/// is a bad request where the body lists none.
#[verifier::rlimit(40)]
pub proof fn a_posted_profile_is_read(
    name: Seq<char>,
    version: Seq<u8>,
    text: Seq<char>,
    max_steps: nat,
)
    requires
        is_path_name(name),
        name != "stop"@,
        version.len() > 0,
        version[0] == 32,
        !version.contains(13u8),
        find_from(
            encode_utf8(name) + version + header_end() + encode_utf8(text),
            encode_utf8("/start "@),
            0,
        ) is None,
    ensures
        request_of(
            encode_utf8("POST /profiles/"@) + encode_utf8(name) + version + header_end()
                + encode_utf8(text),
            max_steps,
        ) == (match profile_steps(trim(text), max_steps) {
            Some(steps) => Request::PostProfile { name, steps },
            None => Request::BadRequest,
        }),
{
    let prefix = encode_utf8("POST /profiles/"@);
    let n = encode_utf8(name);
    let after = version + header_end() + encode_utf8(text);
    let rest = n + version + header_end() + encode_utf8(text);
    let head = prefix + n + version;
    let buf = prefix + n + version + header_end() + encode_utf8(text);
    assert(rest =~= n + after);
    assert(buf =~= prefix + rest);
    assert(buf =~= prefix + n + after);
    post_prefix(buf, rest);
    assert(after[0] == 32);
    name_in_path(prefix, name, after);
    all_fixed_paths(buf);
    profiles_bytes(buf);
    active_bytes(buf);
    profile_stop_bytes(buf);
    not_get_or_post(buf);
    assert(buf.skip(15) =~= rest);
    is_ascii_chars_encode_utf8(name);
    assert(!head.contains(13u8)) by {
        assert(is_ascii_chars("POST /profiles/"@) && !"POST /profiles/"@.contains('\r')) by {
            reveal_strlit("POST /profiles/");
        }
        is_ascii_chars_encode_utf8("POST /profiles/"@);
        assert forall|i: int| 0 <= i < head.len() implies head[i] != 13 by {
            let p = "POST /profiles/"@;
            if i < prefix.len() {
                assert(head[i] == p[i] as u8);
                assert(p.contains(p[i]));
            } else if i < prefix.len() + n.len() {
                assert(head[i] == name[i - prefix.len()] as u8);
            } else {
                assert(head[i] == version[i - prefix.len() - n.len()]);
                assert(version.contains(version[i - prefix.len() - n.len()]));
            }
        }
    }
    the_body_follows_the_header(head, text);
    if routed(buf, "POST /profiles/stop"@, false) {
        assert(forall|i: int| 0 <= i < n.len() ==> buf[15 + i] == #[trigger] n[i]);
        assert(buf[15 + n.len() as int] == 32);
        if n.len() > 4 {
            assert(buf[19] == n[4] && n[4] == name[4] as u8);
        } else if n.len() == 4 {
            assert(buf[15] == n[0] && buf[16] == n[1] && buf[17] == n[2] && buf[18] == n[3]);
            assert(n[0] == name[0] as u8 && n[1] == name[1] as u8 && n[2] == name[2] as u8 && n[3]
                == name[3] as u8);
            assert(name =~= "stop"@) by {
                reveal_strlit("stop");
            }
        }
    }
}

/// A request for the history whose first line has no query is one for 400
/// points.
pub proof fn history_has_400_points_where_none_are_asked_for(
    line: Seq<char>,
    after: Seq<u8>,
    max_steps: nat,
)
    requires
        is_ascii_chars(line),
        begins(encode_utf8(line), "GET /history"@),
        forall|i: int|
            #![trigger line[i]]
            0 <= i < line.len() ==> line[i] != '?' && line[i] != '\r' && line[i] != '\n',
    ensures
        request_of(encode_utf8(line) + seq![13u8, 10] + after, max_steps) == Request::GetHistory(400),
{
    let head = encode_utf8(line);
    let end = seq![13u8, 10];
    let buf = head + end + after;
    assert(begins(buf, "GET /history"@)) by {
        begins_further(head, end + after, "GET /history"@);
        assert(head + (end + after) =~= buf);
    }
    root_bytes(buf);
    status_bytes(buf);
    history_bytes(buf);
    is_ascii_chars_encode_utf8(line);
    encode_utf8_valid_utf8(line);
    encode_utf8_decode_utf8(line);
    let at = head.len() as int;
    assert(buf.take(at) =~= head);
    assert(buf.subrange(at, at + 2) =~= end);
    assert forall|i: int| 0 <= i < at implies #[trigger] buf[i] != end[0] by {
        assert(buf[i] == line[i] as u8);
    }
    find_from_at(buf, end, 0, at);
    no_query(line, 0);
}

proof fn no_query(line: Seq<char>, from: int)
    requires
        0 <= from <= line.len(),
        forall|i: int| #![trigger line[i]] 0 <= i < line.len() ==> line[i] != '?',
    ensures
        first_in(line, seq!['?'], from) == line.len(),
    decreases line.len() - from,
{
    if from < line.len() {
        assert(!seq!['?'].contains(line[from]));
        no_query(line, from + 1);
    }
}

/// A probe name may also be posted as text, in quotes or without them. What
/// holds no text names nothing.
pub proof fn a_probe_name_is_posted_as_text(head: Seq<u8>, name: Seq<char>, max_steps: nat)
    requires
        !head.contains(13u8),
        begins(head, "POST /probe-name"@),
    ensures
        request_of(
            head + header_end() + encode_utf8(seq!['"'] + name + seq!['"']),
            max_steps,
        ) == Request::PostProbeName(name),
        name.len() > 0 && !is_space(name[0]) && !is_space(name.last()) && name[0] != '{' && name[0]
            != '"' ==> request_of(head + header_end() + encode_utf8(name), max_steps)
            == Request::PostProbeName(name),
        request_of(head + header_end() + encode_utf8(seq!['"']), max_steps)
            == Request::PostProbeName(seq!['"']),
        request_of(head + header_end() + encode_utf8(Seq::empty()), max_steps)
            == Request::BadRequest,
{
    let quoted = seq!['"'] + name + seq!['"'];
    assert(quoted[0] == '"' && quoted.last() == '"');
    assert(quoted.subrange(1, quoted.len() - 1) == name);
    trim_of_trimmed(quoted);
    posted_text(head, quoted, max_steps);
    if name.len() > 0 && !is_space(name[0]) && !is_space(name.last()) {
        trim_of_trimmed(name);
    }
    posted_text(head, name, max_steps);
    let quote = seq!['"'];
    assert(quote[0] == '"' && quote.last() == '"');
    trim_of_trimmed(quote);
    posted_text(head, quote, max_steps);
    trim_of_trimmed(Seq::empty());
    posted_text(head, Seq::empty(), max_steps);
}

proof fn posted_text(head: Seq<u8>, text: Seq<char>, max_steps: nat)
    requires
        !head.contains(13u8),
        begins(head, "POST /probe-name"@),
    ensures
        ({
            let buf = head + header_end() + encode_utf8(text);
            &&& text_body(buf) == Some(trim(text))
            &&& request_of(buf, max_steps) == (match probe_name_body(buf) {
                Some(name) => Request::PostProbeName(name),
                None => Request::BadRequest,
            })
        }),
{
    let buf = head + header_end() + encode_utf8(text);
    assert(begins(buf, "POST /probe-name"@)) by {
        begins_further(head, header_end() + encode_utf8(text), "POST /probe-name"@);
        assert(head + (header_end() + encode_utf8(text)) =~= buf);
    }
    the_body_follows_the_header(head, text);
    a_post_of_a_name_is_one(buf, max_steps);
}

/// A request that starts with none of the known methods is not found.
#[verifier::rlimit(40)]
pub proof fn other_methods_are_not_found(buf: Seq<u8>, max_steps: nat)
    requires
        buf.len() > 0 ==> buf[0] != 71 && buf[0] != 80 && buf[0] != 68,
    ensures
        request_of(buf, max_steps) == Request::NotFound,
{
    all_fixed_paths(buf);
    profiles_bytes(buf);
    active_bytes(buf);
    profile_stop_bytes(buf);
    not_get_or_post(buf);
    assert(is_ascii_chars("DELETE /profiles/"@) && "DELETE /profiles/"@.len() == 17
        && "DELETE /profiles/"@[0] == 'D') by {
        reveal_strlit("DELETE /profiles/");
    }
    if starts_with(buf, encode_utf8("DELETE /profiles/"@)) {
        starts_as(buf, "DELETE /profiles/"@, 68);
    }
}

} // verus!
