# sep2_tls

TLS for IEEE 2030.5 (Smart Energy Profile 2), with its decisions verified by Verus.

The library under `src/` decides

- whether a certificate fits the profile of a device, of a self-signed client or of a certificate
  authority (`profile`);
- whether a client trusts a server: validity, extensions, names, and a chain of issuers to a trust
  anchor (`validate`, `names`, `chain`, `server_cert`), and the signature that the server makes in
  the handshake (`signature`);
- what clients and servers load from their files and are ready to negotiate (`load`, `identity`);
- what the test server answers and how it runs (`test_server`).

Certificates are parsed by `x509_parser`, files by `rustls_pemfile`, signatures are checked by
`x509_parser` and `x509_verify`, and trust anchors are kept in `rustls`. Each call into these crates
stands in a small function whose contract is trusted; `x509`, `pem`, `time`, `load` and `signature`
hold them.

`app/` reads files, opens sockets and sets up `rustls` and `hyper` around the library. `tests/` runs
the library on concrete values, with certificates made for the purpose.
