use riwaq_host::json::Json;
use riwaq_host::wasm::wasm_helper::buffer_size;
use riwaq_host::wasm::wasm_helper::cstring;

use riwaq_host::wasm::wasm_helper::ext_custom_sql_exec;
use riwaq_host::wasm::wasm_helper::ext_custom_sql_query;
use riwaq_host::wasm::wasm_helper::ext_sql_exec;
use riwaq_host::wasm::wasm_helper::ext_sql_query;
use riwaq_host::wasm::wasm_helper::read_text;
use riwaq_host::wasm::wasm_helper::write_text;
use riwaq_host::wasm::wasm_helper::AbiError;
use riwaq_host::wasm::wasm_helper::CallPlan;

fn number(s: &str) -> Json {
    Json::Number(s.to_string())
}

#[test]
fn read_stops_at_the_first_zero_byte() {
    let mem = b"abc\0def\0".to_vec();
    assert_eq!(read_text(&mem, 0), Ok("abc".to_string()));
    assert_eq!(read_text(&mem, 1), Ok("bc".to_string()));
    assert_eq!(read_text(&mem, 3), Ok("".to_string()));
    assert_eq!(read_text(&mem, 4), Ok("def".to_string()));
}

#[test]
fn read_without_a_zero_byte_goes_to_the_end() {
    let mem = b"abc".to_vec();
    assert_eq!(read_text(&mem, 1), Ok("bc".to_string()));
    assert_eq!(read_text(&mem, 3), Ok("".to_string()));
    assert_eq!(read_text(&[], 0), Ok("".to_string()));
}

#[test]
fn read_outside_the_memory_fails() {
    let mem = b"abc\0".to_vec();
    assert_eq!(read_text(&mem, 5), Err(AbiError::Decode));
    assert_eq!(read_text(&mem, usize::MAX), Err(AbiError::Decode));
    assert_eq!(read_text(&[], 1), Err(AbiError::Decode));
}

#[test]
fn read_replaces_bytes_that_are_no_utf8() {
    let mem = vec![b'a', 0xff, b'b', 0];
    assert_eq!(read_text(&mem, 0), Ok("a\u{fffd}b".to_string()));
    let mem = vec![0xe2, 0x82, 0];
    assert_eq!(read_text(&mem, 0), Ok("\u{fffd}".to_string()));
}

#[test]
fn read_decodes_utf8() {
    let mut mem = "héllo €".as_bytes().to_vec();
    mem.push(0);
    assert_eq!(read_text(&mem, 0), Ok("héllo €".to_string()));
}

#[test]
fn write_puts_the_text_and_a_zero_byte() {
    let mut mem = vec![7u8; 8];
    assert_eq!(write_text(&mut mem, 2, "abc"), Ok(()));
    assert_eq!(mem, vec![7, 7, b'a', b'b', b'c', 0, 7, 7]);
    assert_eq!(write_text(&mut mem, 7, ""), Ok(()));
    assert_eq!(mem, vec![7, 7, b'a', b'b', b'c', 0, 7, 0]);
}

#[test]
fn write_that_does_not_fit_leaves_the_memory() {
    let mut mem = vec![7u8; 4];
    assert_eq!(write_text(&mut mem, 1, "abc"), Err(AbiError::Allocation));
    assert_eq!(write_text(&mut mem, 4, ""), Err(AbiError::Allocation));
    assert_eq!(write_text(&mut mem, 5, ""), Err(AbiError::Allocation));
    assert_eq!(write_text(&mut mem, usize::MAX, "a"), Err(AbiError::Allocation));
    assert_eq!(mem, vec![7u8; 4]);
    assert_eq!(write_text(&mut mem, 0, "abc"), Ok(()));
    assert_eq!(mem, vec![b'a', b'b', b'c', 0]);
}

#[test]
fn text_written_is_read_back_byte_for_byte() {
    for text in ["", "{\"x\":7}", "héllo €", "{\"body\":{\"s\":\"\\u0000\"}}"] {
        for ptr in [0usize, 1, 5] {
            let mut mem = vec![0xaau8; 64];
            assert_eq!(write_text(&mut mem, ptr, text), Ok(()));
            assert_eq!(&mem[ptr..ptr + text.len()], text.as_bytes());
            assert_eq!(mem[ptr + text.len()], 0);
            assert_eq!(read_text(&mem, ptr), Ok(text.to_string()));
        }
    }
}

#[test]
fn text_with_a_zero_byte_is_read_up_to_it() {
    let mut mem = vec![0xaau8; 16];
    assert_eq!(write_text(&mut mem, 0, "ab\0cd"), Ok(()));
    assert_eq!(read_text(&mem, 0), Ok("ab".to_string()));
}

#[test]
fn text_lies_in_memory_with_a_zero_byte_after_it() {
    assert_eq!(cstring(""), vec![0]);
    assert_eq!(cstring("ab"), vec![b'a', b'b', 0]);
    assert_eq!(cstring("é"), vec![0xc3, 0xa9, 0]);
}

#[test]
fn buffer_holds_the_text_and_its_end() {
    assert_eq!(buffer_size(""), Some(1));
    assert_eq!(buffer_size("abc"), Some(4));
    assert_eq!(buffer_size("é"), Some(3));
}

#[test]
fn call_wraps_the_arguments_under_body() {
    let args = Json::Object(vec![("x".to_string(), number("7"))]);
    let plan = CallPlan::new("handler_echo".to_string(), &args).unwrap();
    assert_eq!(
        plan,
        CallPlan {
            function: "handler_echo".to_string(),
            request: "{\"body\":{\"x\":7}}".to_string(),
            size: 17,
        }
    );
    let plan = CallPlan::new("f".to_string(), &Json::Null).unwrap();
    assert_eq!(plan.request, "{\"body\":null}");
    assert_eq!(plan.size, 14);
}

#[test]
fn scalar_round_trip_across_the_boundary() {
    let args = Json::Object(vec![("x".to_string(), number("7"))]);
    let plan = CallPlan::new("handler_echo".to_string(), &args).unwrap();
    let mut mem = vec![0u8; 128];
    assert_eq!(plan.place(&mut mem, 16), Ok(()));
    assert_eq!(read_text(&mem, 16), Ok("{\"body\":{\"x\":7}}".to_string()));
    let request = Json::parse(&read_text(&mem, 16).unwrap()).unwrap();
    let x = request.get("body").unwrap().get("x").unwrap().render();
    let answer = Json::Object(vec![("y".to_string(), Json::String(format!("got:{}", x)))]);
    assert_eq!(write_text(&mut mem, 64, &answer.render()), Ok(()));
    assert_eq!(
        CallPlan::result(&mem, 64),
        Ok(Json::Object(vec![("y".to_string(), Json::String("got:7".to_string()))]))
    );
}

#[test]
fn request_that_does_not_fit_is_an_allocation_failure() {
    let plan = CallPlan::new("f".to_string(), &Json::Null).unwrap();
    let mut mem = vec![1u8; 13];
    assert_eq!(plan.place(&mut mem, 0), Err(AbiError::Allocation));
    assert_eq!(mem, vec![1u8; 13]);
    let mut mem = vec![1u8; 14];
    assert_eq!(plan.place(&mut mem, 0), Ok(()));
}

#[test]
fn result_outside_the_memory_is_a_decoding_failure() {
    assert_eq!(CallPlan::result(&[b'1', 0], 3), Err(AbiError::Decode));
}

#[test]
fn result_that_is_no_json_is_a_parse_failure() {
    assert_eq!(CallPlan::result(b"{\"y\": \0", 0), Err(AbiError::Parse));
    assert_eq!(CallPlan::result(b"\0", 0), Err(AbiError::Parse));
    assert_eq!(CallPlan::result(b"7\0", 0), Ok(number("7")));
}

#[test]
fn data_calls_answer_with_an_envelope() {
    assert_eq!(ext_sql_exec(Ok(3)), "{\"data\":3,\"ok\":true}");
    assert_eq!(ext_custom_sql_exec(Ok(-1)), "{\"data\":-1,\"ok\":true}");
    assert_eq!(
        ext_sql_exec(Err("no \"such\" table".to_string())),
        "{\"msg\":\"no \\\"such\\\" table\",\"ok\":false}"
    );
    assert_eq!(ext_custom_sql_exec(Err("x".to_string())), "{\"msg\":\"x\",\"ok\":false}");
}

#[test]
fn queries_answer_with_rows() {
    let row = Json::Object(vec![
        ("a".to_string(), number("1")),
        ("b".to_string(), Json::String("x".to_string())),
    ]);
    assert_eq!(ext_sql_query(Ok(vec![row])), "{\"data\":[{\"a\":1,\"b\":\"x\"}],\"ok\":true}");
    assert_eq!(ext_sql_query(Ok(vec![])), "{\"data\":[],\"ok\":true}");
    assert_eq!(ext_sql_query(Err("down".to_string())), "{\"msg\":\"down\",\"ok\":false}");
    assert_eq!(
        ext_custom_sql_query(Ok(vec![vec![number("1"), Json::Null], vec![]])),
        "{\"data\":[[1,null],[]],\"ok\":true}"
    );
    assert_eq!(ext_custom_sql_query(Err("down".to_string())), "{\"msg\":\"down\",\"ok\":false}");
}
