# robot_detect

A detection relay for a robot camera, in two programs that share a verified
library.

- The robot side (`app/detect_subscriber.rs`) takes detected objects (JSON)
  and compressed camera frames from ROS topics, keeps the latest detections
  and serves them to clients of a local socket every few seconds.
- The viewer (`app/detect_view.rs`) reads that socket, queues the raw
  messages, parses them, and draws the detections over the latest camera
  frame with egui.

`src/` holds the decisions of both sides, each with a proved contract: what a read of the socket does to the inbox (`receiver`), how parsed
messages are taken out of it (`queue`), which detections are drawn and when
the frame is reloaded (`view`), the pixels of a frame (`frame`), and what the
robot side keeps and sends (`publisher`). `app/` holds the I/O, threads, ROS,
JSON and GUI code around it, and the floating-point geometry.

Run `robot_detect subscriber [--capture]` on the robot and `robot_detect view`
on the viewing machine.
