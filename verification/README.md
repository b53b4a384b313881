# Lenso Secrets

Replaceable secret-reference resolution, verified with Verus.

A consumer asks for the secret behind a logical reference such as
`model/openai-api-key`. One of four providers answers:

| Module | Source |
| --- | --- |
| `env` | allowlisted environment variables |
| `keychain` | passwords in the keychain of the operating system |
| `encrypted_file` | a passphrase-encrypted age file |
| `command`, `process` | the output of a bounded external program |

`capability` holds the requests, answers, refusals and failures that they
share, `naming` says which references and names are accepted, and `table` and
`text` are the ordered table behind every configuration.

## What is proved

- Which configurations are accepted, and with which text another is refused.
  Whether the path of a program is absolute, the operating system says; the
  check of a command configuration is tied to what it says of that very path.
- A malformed reference and one that is not bound are refused in different
  ways; any other is answered from the source bound to it, or fails.
- Preparation succeeds only if every configured source gives a secret, and a
  failure names the first reference that has none.
- The text of a failure depends on the reference alone.
- An output is kept up to its limit however it is cut into chunks, and one line
  ending is taken off it.
- A document is loaded only from a regular file within its limits, and only if
  it is whole, of the known version, and complete. The file is opened once, and
  what is checked and what is decrypted are the same file.
- A provider over the environment of a process, or over the passwords that the
  operating system stores, answers with the text that is set or stored for the
  source bound to a reference, or fails.

Nothing is promised of the host, which the library meets through traits
without contracts. What outside code is believed to do stands in the doc
comments of the functions marked `external_body`.

## Layout

- `src/` is the library.
- `tests/` runs it, with the age crate linked.
- `app/` is the host's side: configuration documents, environment, keychain,
  files and processes, and the factories that make native plugins of the
  providers.
