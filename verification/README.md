# TorShield

A macOS menu bar application that routes the machine through Tor while it is
connected, and puts everything back when it disconnects or quits.

The project has two parts.

- `src/` is the `torshield` library, verified with Verus. It decides everything:
  the steps of connecting and disconnecting and in which order, every command line
  given to `networksetup`, `ifconfig`, `pfctl` and the privileged helper, the
  contents of `torrc`, of the dnsmasq configuration, of the shell hook and of the
  Firefox preference files, the parsing of command output, the Tor control-port
  exchange (SAFECOOKIE), the signing of the settings file, and the menu's texts.
  Each public function states its result exactly in its contract; the laws that
  tie functions together (disconnecting undoes connecting and a connection that
  gives up is rolled back, every network service gets its recorded proxy, IPv6 and
  DNS settings back (over a model of what `networksetup`'s setters do), restoring a Firefox profile gives its files back as they were, a
  saved settings file passes its integrity check, the shell hook is written once,
  the `pf.conf` patch is applied once, the kill switch read with pf's first-match
  rules drops all UDP and all outbound traffic but TCP to Tor's port, a pid reads back as itself, hex and the Tor challenge reply
  read back byte for byte, a spoofed MAC carries an Apple identifier) are public
  proof functions.
- `app/` is the application around it: the tray and its menu (Tauri), the async
  tasks (tokio), HTTP requests (reqwest), the keychain (security-framework), the
  settings file (serde), and the code that performs the steps the library plans.

Modules of the library:

| module      | contents |
|-------------|----------|
| `text`      | strings as character sequences: trimming, lines, words, search, UTF-8 |
| `hex`, `base64` | encodings |
| `crypto`    | HMAC-SHA256 and random bytes, through `hmac`/`sha2` and `getrandom` |
| `config`    | settings, their defaults, menu changes, the settings file's signature |
| `helper`    | paths, command parsing, the helper's installation, the `Action` plan type |
| `netstate`  | each network service's proxy, IPv6 and DNS settings, read and set back |
| `proxy`     | system proxy (with the Spotify bypass), IPv6, DNS through dnsmasq, proxy environment variables |
| `firewall`  | the pf kill switch and its watchdog |
| `mac_spoof` | MAC address randomisation and restoration |
| `firefox`   | Firefox preference files |
| `tor`       | `torrc`, starting and stopping Tor, the control-port exchange |
| `session`   | connect/disconnect plans, menu actions, notices |
| `menu`      | the state-dependent menu texts |
