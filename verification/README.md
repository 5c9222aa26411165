# guest_bridges

The logic by which a virtual machine monitor bridges hardware of its host to a
guest, written in Verus and proved against its contracts.

- `nvidia_bpmp`, `nvidia_dce`, `dce_events`, `proxy`: the MMIO bridges to the
  BPMP and DCE proxy drivers, the loop that passes the events of the DCE driver
  on to the guest, and the messages that go to the drivers.
- `host_tpm`, `swtpm`, `tpm`: the exchange of TPM commands with a character
  device or with a software TPM.
- `sysfs`, `property`, `power`: the state of the power supplies, out of the
  files of the power supply class.
- `bus`, `bytes`, `text`, `platform`, `error`: what these share.

The library does no input or output. Where a bridge needs some, it says what is
to be done and takes what came of it; `app/` does it. The tests in `tests/` stand
in for the outside in the same way.
