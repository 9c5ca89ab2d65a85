use meeting_recorder::{index_reply, interpret_index, IndexReply};

#[test]
fn index_reply_trims_the_line() {
    assert_eq!(index_reply("  3\n", 5, false), IndexReply::Chosen(3));
    assert_eq!(index_reply("0\r\n", 1, false), IndexReply::Chosen(0));
    assert_eq!(index_reply("\t-1 \n", 5, true), IndexReply::Skipped);
}

#[test]
fn index_reply_out_of_range() {
    assert_eq!(index_reply("5\n", 5, false), IndexReply::OutOfRange);
    assert_eq!(index_reply("7\n", 0, true), IndexReply::OutOfRange);
}

#[test]
fn index_reply_not_a_number() {
    assert_eq!(index_reply("abc\n", 5, false), IndexReply::NotANumber);
    assert_eq!(index_reply("\n", 5, false), IndexReply::NotANumber);
    assert_eq!(index_reply("-1\n", 5, false), IndexReply::NotANumber);
    assert_eq!(index_reply("1 2\n", 5, false), IndexReply::NotANumber);
    assert_eq!(index_reply("+\n", 5, false), IndexReply::NotANumber);
    assert_eq!(index_reply("-2\n", 5, true), IndexReply::NotANumber);
}

#[test]
fn interpret_index_reads_plus_sign_and_large_numbers() {
    assert_eq!(interpret_index("+2", 5, false), IndexReply::Chosen(2));
    assert_eq!(interpret_index("0004", 5, false), IndexReply::Chosen(4));
    assert_eq!(interpret_index("18446744073709551615", usize::MAX, false), IndexReply::OutOfRange);
    assert_eq!(interpret_index("99999999999999999999999", usize::MAX, false), IndexReply::NotANumber);
    assert_eq!(interpret_index(" 3", 5, false), IndexReply::NotANumber);
}
