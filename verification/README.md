# mcp-addition

An MCP server with one tool, `add`, served over standard input and output or
over streamable HTTP behind a small in-memory OAuth 2.1 authorization server
(dynamic client registration, authorization codes with PKCE `S256`, refresh
tokens with rotation, revocation, discovery metadata).

- `src/` is the verified library: the authorization server's state and
  endpoints (`oauth`), the bearer check in front of the MCP endpoint (`http`),
  HTML escaping and query-string encoding (`text`), the SHA-256, base64,
  random and UUID values it draws on (`crypto`), its monotonic clock
  (`clock`), start-up settings (`config`), properties proved across the
  operations (`laws`), and what stays true of codes and tokens across any
  history of operations (`history`).
- `app/` is the program: environment, routes and request plumbing (axum),
  the MCP tool server (rmcp), and the serde forms of the library's types.
- `tests/` runs the library on concrete values.
