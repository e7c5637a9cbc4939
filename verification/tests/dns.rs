use netparse::dns::{
    parse_dns_message, parse_dns_message_full, Class, DomainName, Header, Message, Opcode, Qclass,
    Qtype, Query, Rcode, Rdata, ResourceRecord, Type, QR,
};

#[test]
fn test_query() {
    let query = [
        0x24, 0x1a, 0x01, 0x00, 0x00, 0x01, 0x00, 0x00,
        0x00, 0x00, 0x00, 0x00, 0x03, 0x77, 0x77, 0x77,
        0x06, 0x67, 0x6f, 0x6f, 0x67, 0x6c, 0x65, 0x03,
        0x63, 0x6f, 0x6d, 0x00, 0x00, 0x01, 0x00, 0x01];
    assert_eq!(
        parse_dns_message(&query),
        Ok((&b""[..],
            Message {
                header: Header {
                    id: 9242,
                    qr: QR::Query,
                    opcode: Opcode::Query,
                    aa: false,
                    tc: false,
                    rd: true,
                    ra: false,
                    rcode: Rcode::NoError,
                    qdcount: 1,
                    ancount: 0,
                    nscount: 0,
                    arcount: 0
                },
                questions: vec![
                    Query {
                        qname: DomainName::Labels(vec![
                                   &[119, 119, 119],
                                   &[103, 111, 111, 103, 108, 101],
                                   &[99, 111, 109]]),
                        qtype: Qtype::Type(Type::A),
                        qclass: Qclass::Class(Class::IN)
                    }
                ],
                answers: vec![],
                authorities: vec![],
                additional: vec![]
            }))
    );
}

#[test]
fn test_response() {
    let resp = [
        0x24, 0x1a, 0x81, 0x80, 0x00, 0x01, 0x00, 0x03,
        0x00, 0x00, 0x00, 0x00, 0x03, 0x77, 0x77, 0x77,
        0x06, 0x67, 0x6f, 0x6f, 0x67, 0x6c, 0x65, 0x03,
        0x63, 0x6f, 0x6d, 0x00, 0x00, 0x01, 0x00, 0x01,
        0xc0, 0x0c, 0x00, 0x05, 0x00, 0x01, 0x00, 0x05,
        0x28, 0x39, 0x00, 0x12, 0x03, 0x77, 0x77, 0x77,
        0x01, 0x6c, 0x06, 0x67, 0x6f, 0x6f, 0x67, 0x6c,
        0x65, 0x03, 0x63, 0x6f, 0x6d, 0x00, 0xc0, 0x2c,
        0x00, 0x01, 0x00, 0x01, 0x00, 0x00, 0x00, 0xe3,
        0x00, 0x04, 0x42, 0xf9, 0x59, 0x63, 0xc0, 0x2c,
        0x00, 0x01, 0x00, 0x01, 0x00, 0x00, 0x00, 0xe3,
        0x00, 0x04, 0x42, 0xf9, 0x59, 0x68];

    assert_eq!(
        parse_dns_message_full(&resp),
        Ok((
            &b""[..],
            Message {
                header: Header {
                    id: 9242,
                    qr: QR::Response,
                    opcode: Opcode::Query,
                    aa: false,
                    tc: false,
                    rd: true,
                    ra: true,
                    rcode: Rcode::NoError,
                    qdcount: 1,
                    ancount: 3,
                    nscount: 0,
                    arcount: 0
                },
                questions: vec![
                    Query {
                        qname: DomainName::Labels(vec![
                                      &[119, 119, 119],
                                      &[103, 111, 111, 103, 108, 101],
                                      &[99, 111, 109]
                        ]),
                        qtype: Qtype::Type(Type::A),
                        qclass: Qclass::Class(Class::IN)
                    }
                ],
                answers: vec![
                    ResourceRecord {
                        name: DomainName::Labels(vec![
                                     &[119, 119, 119],
                                     &[103, 111, 111, 103, 108, 101],
                                     &[99, 111, 109]
                        ]),
                        typ: Type::Cname,
                        class: Class::IN,
                        ttl: 337977,
                        rdata: Rdata::Cname(
                            DomainName::Labels(vec![
                                   &[119, 119, 119],
                                   &[108],
                                   &[103, 111, 111, 103, 108, 101],
                                   &[99, 111, 109]
                            ]))
                    },
                    ResourceRecord {
                        name: DomainName::Labels(vec![
                                     &[119, 119, 119],
                                     &[108],
                                     &[103, 111, 111, 103, 108, 101],
                                     &[99, 111, 109]
                        ]),
                        typ: Type::A,
                        class: Class::IN,
                        ttl: 227,
                        rdata: Rdata::A(&[66, 249, 89, 99])
                    },
                    ResourceRecord {
                        name: DomainName::Labels(vec![
                                     &[119, 119, 119],
                                     &[108],
                                     &[103, 111, 111, 103, 108, 101],
                                     &[99, 111, 109]
                        ]),
                        typ: Type::A,
                        class: Class::IN,
                        ttl: 227,
                        rdata: Rdata::A(&[66, 249, 89, 104])
                    }
                ],
                authorities: vec![],
                additional: vec![]
            }
        ))
    );
}

#[test]
fn dns_deref() {
    let msg = [
        160, 219, 129, 128, 0, 1, 0, 2,
        0, 0, 0, 0, 7, 97, 110, 100,
        114, 111, 105, 100, 7, 99, 108, 105,
        101, 110, 116, 115, 6, 103, 111, 111,
        103, 108, 101, 3, 99, 111, 109, 0,
        0, 1, 0, 1, 192, 12, 0, 5, 0,
        1, 0, 0, 0, 69, 0, 12, 7, 97,
        110, 100, 114, 111, 105, 100, 1, 108,
        192, 28, 192, 56, 0, 1, 0, 1,
        0, 0, 0, 69, 0, 4, 216, 58, 219,
        78
    ];
    assert_eq!(
        parse_dns_message_full(&msg),
        Ok((
            &b""[..],
            Message {
                header: Header {
                    id: 41179,
                    qr: QR::Response,
                    opcode: Opcode::Query,
                    aa: false,
                    tc: false,
                    rd: true,
                    ra: true,
                    rcode: Rcode::NoError,
                    qdcount: 1,
                    ancount: 2,
                    nscount: 0,
                    arcount: 0
                },
                questions: vec![
                    Query {
                        qname: DomainName::Labels(vec![
                                      &[97, 110, 100, 114, 111, 105, 100],
                                      &[99, 108, 105, 101, 110, 116, 115],
                                      &[103, 111, 111, 103, 108, 101],
                                      &[99, 111, 109]]),
                        qtype: Qtype::Type(Type::A),
                        qclass: Qclass::Class(Class::IN)
                    }
                ],
                answers: vec![
                    ResourceRecord {
                        name: DomainName::Labels(vec![
                                                 &[97, 110, 100, 114, 111, 105, 100],
                                                 &[99, 108, 105, 101, 110, 116, 115],
                                                 &[103, 111, 111, 103, 108, 101],
                                                 &[99, 111, 109]]),
                        typ: Type::Cname,
                        class: Class::IN,
                        ttl: 69,
                        rdata: Rdata::Cname(DomainName::Labels(vec![
                                                               &[97, 110, 100, 114, 111, 105, 100],
                                                               &[108],
                                                               &[103, 111, 111, 103, 108, 101],
                                                               &[99, 111, 109]]))
                    },
                    ResourceRecord {
                        name: DomainName::Labels(vec![
                                                 &[97, 110, 100, 114, 111, 105, 100],
                                                 &[108],
                                                 &[103, 111, 111, 103, 108, 101],
                                                 &[99, 111, 109]]),
                        typ: Type::A,
                        class: Class::IN,
                        ttl: 69,
                        rdata: Rdata::A(&[216, 58, 219, 78])
                    }
                ],
                authorities: vec![],
                additional: vec![]
            }))
    );
}
