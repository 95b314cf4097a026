# pointcloud_stream

Point cloud frames in a common representation: validation, construction,
packing into a little-endian layout without row padding, and the protocol
logic used to stream them over WebSocket with the Foxglove
(`foxglove.websocket.v1`) and PointCloud Wire (`pointcloud.wire.v1`)
subprotocols.

## Layout

- `src/` is the library, written in Verus; every function in it is verified
  against its `requires`/`ensures` contract. `LatestFrameStream` and
  `ChannelRegistry` share their contents with their clones through a lock, so
  their contracts say only what holds whatever other clones do; the exact
  behaviour is stated on the plain operations they run under the lock
  (`replace_latest`, `take_latest`, `register_channel_in`, `find_channel`).
  - `pointcloud/`: data types, frame validation (`PointCloudFrame::validate`),
    the builder, packing (`pack_point_data`), the latest-frame stream and the
    coordinate positions used by transforms.
  - `publisher/`: the channel registry, binary message framing, the Foxglove
    and PointCloud Wire messages, subprotocol selection and the per-client
    session state machine.
- `app/` is ordinary Rust around the library: the serde forms of the
  messages, the floating-point coordinate transform, and the asynchronous
  WebSocket server (tokio, tokio-tungstenite) that performs the I/O the
  session logic asks for.
- `tests/` exercises the library.
