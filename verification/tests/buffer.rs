use nommy::Buf;
use nommy::Buffer;

fn chars(s: &str) -> Vec<char> {
    s.chars().collect()
}

#[test]
fn cursor_isolation() {
    let mut buffer = Buf::new(chars("something"));
    {
        let mut cursor1 = buffer.cursor();
        assert_eq!(cursor1.next(&mut buffer), Some('s'));

        {
            let mut cursor2 = cursor1.cursor();
            assert_eq!(cursor2.next(&mut buffer), Some('o'));
            assert_eq!(cursor2.next(&mut buffer), Some('m'));
        }

        assert_eq!(cursor1.next(&mut buffer), Some('o'));
    }

    assert_eq!(buffer.next(), Some('s'));
    assert_eq!(buffer.next(), Some('o'));
    assert_eq!(buffer.next(), Some('m'));
}

#[test]
fn cursor_fast_forward() {
    let mut buffer = Buf::new((0..10).collect());

    let mut cursor = buffer.cursor();
    cursor.fast_forward(2);

    assert_eq!(cursor.next(&mut buffer), Some(2));
    assert_eq!(cursor.next(&mut buffer), Some(3));

    assert_eq!(buffer.next(), Some(0));
    assert_eq!(buffer.next(), Some(1));
    assert_eq!(buffer.next(), Some(2));
    assert_eq!(buffer.next(), Some(3));
}

#[test]
fn cursor_position_counts_reads() {
    let mut buffer = Buf::new(chars("abcd"));
    let mut cursor = buffer.cursor();
    assert_eq!(cursor.position(), 0);
    for n in 1..=4usize {
        assert!(cursor.next(&mut buffer).is_some());
        assert_eq!(cursor.position(), n);
    }
    // Reading past the end returns nothing and leaves the position alone.
    assert_eq!(cursor.next(&mut buffer), None);
    assert_eq!(cursor.position(), 4);
}

#[test]
fn cursor_reset_returns_to_start() {
    let mut buffer = Buf::new(chars("xyz"));
    let mut cursor = buffer.cursor();
    assert_eq!(cursor.next(&mut buffer), Some('x'));
    assert_eq!(cursor.next(&mut buffer), Some('y'));
    assert!(cursor.reset());
    assert_eq!(cursor.position(), 0);
    assert_eq!(cursor.next(&mut buffer), Some('x'));
}

#[test]
fn fast_forward_commit_equals_direct_reads() {
    // Reading three tokens through a cursor and committing them by
    // fast-forwarding the parent...
    let mut committed = Buf::new(chars("parser"));
    let mut cursor = committed.cursor();
    let mut seen_via_cursor = Vec::new();
    for _ in 0..3 {
        seen_via_cursor.push(cursor.next(&mut committed).unwrap());
    }
    committed.fast_forward(cursor.position());

    // ...leaves the buffer exactly as reading them directly would.
    let mut direct = Buf::new(chars("parser"));
    let mut seen_directly = Vec::new();
    for _ in 0..3 {
        seen_directly.push(direct.next().unwrap());
    }
    assert_eq!(seen_via_cursor, seen_directly);
    loop {
        let a = committed.next();
        let b = direct.next();
        assert_eq!(a, b);
        if a.is_none() {
            break;
        }
    }
}

#[test]
fn fast_forward_saturates_at_end() {
    let mut buffer = Buf::new(chars("ab"));
    buffer.fast_forward(10);
    assert_eq!(buffer.next(), None);
}

#[test]
fn peek_ahead_does_not_consume() {
    let mut buffer = Buf::new(chars("ab"));
    assert_eq!(buffer.peek_ahead(1), Some('b'));
    assert_eq!(buffer.peek_ahead(0), Some('a'));
    assert_eq!(buffer.peek_ahead(2), None);
    assert_eq!(buffer.next(), Some('a'));
    assert_eq!(buffer.next(), Some('b'));
    assert_eq!(buffer.next(), None);
}
