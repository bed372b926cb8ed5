# iron_nest

The decisions of the IronNest home-automation app, written in Verus and proved
against their contracts:

- `dashboard`: the panel layout, its display order, what each panel shows, and
  how a click on a device adds it to the toggles panel.
- `devices`: which devices a toggles panel shows and which controls each kind of
  device gets.
- `meals`: the planned meals grouped into days.
- `json`, `mish`, `hexcodec`, `blobs`: what the Mish state and IPLD blob editors
  save, how it travels to the server as hex, and how blobs are identified (CID)
  and linked.
- `cli`: the decisions of the `mish-cli` uploader.
- `roku`, `slider`, `routes`, `notices`, `timeline`, `text`: smaller pieces.

`app/` holds the uploader program itself (argument parsing, file and network
I/O), the Roku keypress HTTP handler, the floating-point timeline placement, and
the conversions to and from serde's JSON values.
