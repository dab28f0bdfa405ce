use quic_tls::client_hello::ClientHello;
use quic_tls::error::Truncated;

fn prelude(session_id: &[u8], cipher_suites: &[u8], compression: &[u8]) -> Vec<u8> {
    let mut body = vec![0x03, 0x03];
    body.extend_from_slice(&[0xaa; 32]);
    body.push(session_id.len() as u8);
    body.extend_from_slice(session_id);
    body.extend_from_slice(&(cipher_suites.len() as u16).to_be_bytes());
    body.extend_from_slice(cipher_suites);
    body.push(compression.len() as u8);
    body.extend_from_slice(compression);
    body
}

fn extension(code: u16, payload: &[u8]) -> Vec<u8> {
    let mut bytes = Vec::new();
    bytes.extend_from_slice(&code.to_be_bytes());
    bytes.extend_from_slice(&(payload.len() as u16).to_be_bytes());
    bytes.extend_from_slice(payload);
    bytes
}

fn hello(extensions: &[Vec<u8>]) -> Vec<u8> {
    let mut body = prelude(&[], &[0x13, 0x01], &[]);
    let block: Vec<u8> = extensions.concat();
    body.extend_from_slice(&(block.len() as u16).to_be_bytes());
    body.extend_from_slice(&block);
    body
}

#[test]
fn client_hello_sni_across_three_chunks() {
    let body = hello(&[extension(0, b"example.com")]);
    let mut first = 1;
    while first < body.len() - 1 {
        let mut second = first + 1;
        while second < body.len() {
            let chunks: [&[u8]; 3] = [&body[..first], &body[first..second], &body[second..]];
            let found = ClientHello::from_bytes(&chunks).unwrap();
            assert_eq!(found.sni().unwrap().as_ref(), b"example.com");
            assert!(found.alpn().is_none());
            second += 7;
        }
        first += 5;
    }
}

#[test]
fn client_hello_alpn_and_sni_in_either_order() {
    let sni = extension(0, b"gimme.moar.bandwidth");
    let alpn = extension(16, b"h3");
    for body in [hello(&[alpn.clone(), sni.clone()]), hello(&[sni, alpn])] {
        let found = ClientHello::from_bytes(&[&body]).unwrap();
        assert_eq!(found.sni().unwrap().as_ref(), b"gimme.moar.bandwidth");
        assert_eq!(found.alpn().unwrap().as_ref(), b"h3");
        assert_eq!(found.sni.as_deref(), Some(&b"gimme.moar.bandwidth"[..]));
        assert_eq!(found.alpn.as_deref(), Some(&b"h3"[..]));
    }
}

#[test]
fn client_hello_without_extensions() {
    let body = hello(&[]);
    let found = ClientHello::from_bytes(&[&body]).unwrap();
    assert!(found.sni().is_none());
    assert!(found.alpn().is_none());
}

#[test]
fn client_hello_skips_other_extensions() {
    let body = hello(&[
        extension(43, &[2, 3, 4]),
        extension(0xfa00, &[9; 40]),
        extension(16, b"h3"),
        extension(51, &[]),
    ]);
    let found = ClientHello::from_bytes(&[&body[..50], &body[50..]]).unwrap();
    assert!(found.sni().is_none());
    assert_eq!(found.alpn().unwrap().as_ref(), b"h3");
}

#[test]
fn client_hello_last_of_two_names_stays() {
    let body = hello(&[extension(0, b"first"), extension(0, b"second")]);
    let found = ClientHello::from_bytes(&[&body]).unwrap();
    assert_eq!(found.sni().unwrap().as_ref(), b"second");
}

#[test]
fn client_hello_with_session_id_and_compression() {
    let mut body = prelude(&[7; 32], &[0x13, 0x01, 0x13, 0x02], &[0]);
    let block = extension(0, b"a.b");
    body.extend_from_slice(&(block.len() as u16).to_be_bytes());
    body.extend_from_slice(&block);
    let found = ClientHello::from_bytes(&[&body]).unwrap();
    assert_eq!(found.sni().unwrap().as_ref(), b"a.b");
}

#[test]
fn client_hello_extensions_block_longer_than_input() {
    let mut body = prelude(&[], &[0x13, 0x01], &[]);
    let block = extension(0, b"example.com");
    body.extend_from_slice(&((block.len() + 10) as u16).to_be_bytes());
    body.extend_from_slice(&block);
    let error = ClientHello::from_bytes(&[&body]).unwrap_err();
    assert_eq!(error, Truncated { requested: block.len() + 10, available: block.len() });
}

#[test]
fn client_hello_extension_longer_than_input() {
    let mut body = prelude(&[], &[0x13, 0x01], &[]);
    body.extend_from_slice(&[0, 9]);
    body.extend_from_slice(&[0, 0, 0, 11]);
    body.extend_from_slice(b"examp");
    let error = ClientHello::from_bytes(&[&body[..40], &body[40..]]).unwrap_err();
    assert_eq!(error, Truncated { requested: 11, available: 5 });
}

#[test]
fn client_hello_cut_short_at_every_length() {
    let body = hello(&[extension(0, b"example.com"), extension(16, b"h3")]);
    let mut len = 0;
    while len < body.len() {
        assert!(ClientHello::from_bytes(&[&body[..len]]).is_err());
        len += 1;
    }
    assert!(ClientHello::from_bytes(&[&body]).is_ok());
}

#[test]
fn client_hello_errors_name_the_read() {
    assert_eq!(
        ClientHello::from_bytes(&[]).unwrap_err(),
        Truncated { requested: 2, available: 0 }
    );
    assert_eq!(
        ClientHello::from_bytes(&[&[3, 3, 1]]).unwrap_err(),
        Truncated { requested: 32, available: 1 }
    );
    let mut body = vec![3u8, 3];
    body.extend_from_slice(&[0; 32]);
    assert_eq!(
        ClientHello::from_bytes(&[&body]).unwrap_err(),
        Truncated { requested: 1, available: 0 }
    );
    body.push(4);
    body.push(1);
    assert_eq!(
        ClientHello::from_bytes(&[&body]).unwrap_err(),
        Truncated { requested: 4, available: 1 }
    );
    let no_block = prelude(&[], &[0x13, 0x01], &[]);
    assert_eq!(
        ClientHello::from_bytes(&[&no_block]).unwrap_err(),
        Truncated { requested: 2, available: 0 }
    );
    let mut half = hello(&[]);
    half.truncate(half.len() - 2);
    half.extend_from_slice(&[0, 3, 0, 0, 0]);
    assert_eq!(
        ClientHello::from_bytes(&[&half]).unwrap_err(),
        Truncated { requested: 2, available: 1 }
    );
}
