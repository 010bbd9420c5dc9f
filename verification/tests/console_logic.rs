use axplat_riscv64_sg2002::console::{
    uart_register_va, UART_REG_LSR, UART_REG_USR,
    console_irq_num, encode_output, expand_byte, rx_begin, rx_store, RxStep, UART_IRQ,
};

#[test]
fn expand_newline() {
    assert_eq!(expand_byte(b'\n'), vec![b'\r', b'\n']);
    assert_eq!(expand_byte(b'a'), vec![b'a']);
    assert_eq!(expand_byte(b'\r'), vec![b'\r']);
}

#[test]
fn encode_lines() {
    assert_eq!(encode_output(b"hi\nyo\n"), b"hi\r\nyo\r\n".to_vec());
    assert_eq!(encode_output(b""), Vec::<u8>::new());
    assert_eq!(encode_output(b"\r\n"), b"\r\r\n".to_vec());
}

#[test]
fn encode_concat() {
    let mut whole = encode_output(b"ab\n");
    whole.extend(encode_output(b"\ncd"));
    assert_eq!(whole, encode_output(b"ab\n\ncd"));
}

#[test]
fn encode_len_counts_newlines() {
    let input = b"\n\nx\n";
    assert_eq!(encode_output(input).len(), input.len() + 3);
}

#[test]
fn read_empty_buffer() {
    assert_eq!(rx_begin(0), RxStep::Finish(0));
    assert_eq!(rx_begin(3), RxStep::Receive);
}

#[test]
fn read_until_nothing_waiting() {
    let mut buf = [0u8; 4];
    assert_eq!(rx_store(&mut buf, 0, Some(b'x')), RxStep::Receive);
    assert_eq!(rx_store(&mut buf, 1, Some(b'y')), RxStep::Receive);
    assert_eq!(rx_store(&mut buf, 2, None), RxStep::Finish(2));
    assert_eq!(buf, [b'x', b'y', 0, 0]);
}

#[test]
fn read_until_full() {
    let mut buf = [0u8; 2];
    assert_eq!(rx_store(&mut buf, 0, Some(1)), RxStep::Receive);
    assert_eq!(rx_store(&mut buf, 1, Some(2)), RxStep::Finish(2));
    assert_eq!(buf, [1, 2]);
}

#[test]
fn uart_irq_number() {
    assert_eq!(console_irq_num(), Some(UART_IRQ));
    assert_eq!(UART_IRQ, 44);
}

#[test]
fn uart_register_addresses() {
    assert_eq!(uart_register_va(UART_REG_LSR), 0xffff_ffc0_0414_0014);
    assert_eq!(uart_register_va(UART_REG_USR), 0xffff_ffc0_0414_007c);
}

#[test]
fn every_line_feed_follows_carriage_return() {
    let out = encode_output(b"a\n\nb\rc\n");
    for (k, &byte) in out.iter().enumerate() {
        if byte == b'\n' {
            assert!(k > 0 && out[k - 1] == b'\r');
        }
    }
}
